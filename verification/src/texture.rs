//! Textures: what the GPU can hold, and how an image of the host engine is
//! laid out for it.

use vstd::prelude::*;

verus! {

/// The longest side, in texels, that a texture can have.
pub const MAX_TEX_SIZE: u32 = 1024;

/// The shortest side, in texels, that a texture can have.
pub const MIN_TEX_SIZE: u32 = 8;

/// The pixel formats of the host engine that matter here.
#[derive(Debug, Clone, Copy, PartialEq, Eq, Structural)]
pub enum TextureFormat {
    R8Unorm,
    R8Uint,
    Rg8Unorm,
    Rgba8Unorm,
    Rgba8UnormSrgb,
    /// Any other format.
    Other,
}

/// The pixel formats that an image can be brought into the GPU's tiled
/// order in.
#[derive(Debug, Clone, Copy, PartialEq, Eq, Structural)]
pub enum ImageFormat {
    Rgba8,
    Rgb8,
    Rgba5551,
    Rgb565,
    Rgba4,
    Luma8,
    Hilo8,
    Lum8,
    Alpha8,
    Luma4,
    Lum4,
    Alpha4,
}

/// The texel formats of the GPU.
#[derive(Debug, Clone, Copy, PartialEq, Eq, Structural)]
pub enum TexFormat {
    Rgba8,
    Rgb8,
    Rgba5551,
    Rgb565,
    Rgba4,
    La8,
    HiLo8,
    L8,
    A8,
    La4,
}

/// Why an image cannot become a texture.
#[derive(Debug, Clone, Copy, PartialEq, Eq, Structural)]
pub enum TextureError {
    /// The image is wider than [`MAX_TEX_SIZE`].
    TooWide { width: u32 },
    /// The image is taller than [`MAX_TEX_SIZE`].
    TooTall { height: u32 },
    /// The GPU has no format for the pixels of the image.
    UnsupportedFormat,
    /// The texels handed over are not as many as the plan asks for.
    WrongLength { expected: usize, found: usize },
}

/// How an image is to be laid out for the GPU.
#[derive(Debug, Clone, Copy, PartialEq, Eq, Structural)]
pub struct TexturePlan {
    /// The width that the image is brought to before it is laid out.
    pub width: u32,
    /// The height that the image is brought to before it is laid out.
    pub height: u32,
    /// The format in which the pixels are brought into tiled order.
    pub image_format: ImageFormat,
    /// The format of the texture.
    pub tex_format: TexFormat,
    /// The size of the texture in bytes.
    pub buffer_len: usize,
}

/// The format in which pixels of the host format `format` are brought into
/// tiled order, if there is one.
pub open spec fn image_format_of(format: TextureFormat) -> Option<ImageFormat> {
    match format {
        TextureFormat::R8Unorm | TextureFormat::R8Uint => Some(ImageFormat::Lum8),
        TextureFormat::Rg8Unorm => Some(ImageFormat::Luma8),
        TextureFormat::Rgba8Unorm | TextureFormat::Rgba8UnormSrgb => Some(ImageFormat::Rgba8),
        TextureFormat::Other => None,
    }
}

/// How many bytes one pixel of the host format `format` takes.
pub open spec fn pixel_size(format: TextureFormat) -> nat {
    match format {
        TextureFormat::R8Unorm | TextureFormat::R8Uint => 1,
        TextureFormat::Rg8Unorm => 2,
        TextureFormat::Rgba8Unorm | TextureFormat::Rgba8UnormSrgb => 4,
        TextureFormat::Other => 0,
    }
}

/// The texel format that pixels of the tiled format `format` are stored in,
/// if the GPU has one.
pub open spec fn tex_format_of(format: ImageFormat) -> Option<TexFormat> {
    match format {
        ImageFormat::Rgba8 => Some(TexFormat::Rgba8),
        ImageFormat::Rgb8 => Some(TexFormat::Rgb8),
        ImageFormat::Rgba5551 => Some(TexFormat::Rgba5551),
        ImageFormat::Rgb565 => Some(TexFormat::Rgb565),
        ImageFormat::Rgba4 => Some(TexFormat::Rgba4),
        ImageFormat::Luma8 => Some(TexFormat::La8),
        ImageFormat::Hilo8 => Some(TexFormat::HiLo8),
        ImageFormat::Lum8 => Some(TexFormat::L8),
        ImageFormat::Alpha8 => Some(TexFormat::A8),
        ImageFormat::Luma4 => Some(TexFormat::La4),
        ImageFormat::Lum4 | ImageFormat::Alpha4 => None,
    }
}

/// A side of an image as the texture has it: no shorter than
/// [`MIN_TEX_SIZE`].
pub open spec fn padded(side: u32) -> u32 {
    if side < MIN_TEX_SIZE {
        MIN_TEX_SIZE
    } else {
        side
    }
}

/// How an image of `width` by `height` pixels of the host format `format`
/// becomes a texture, or why it cannot.
pub open spec fn texture_plan(width: u32, height: u32, format: TextureFormat) -> Result<
    TexturePlan,
    TextureError,
> {
    if width > MAX_TEX_SIZE {
        Err(TextureError::TooWide { width })
    } else if height > MAX_TEX_SIZE {
        Err(TextureError::TooTall { height })
    } else {
        match image_format_of(format) {
            None => Err(TextureError::UnsupportedFormat),
            Some(image_format) => Ok(
                TexturePlan {
                    width: padded(width),
                    height: padded(height),
                    image_format,
                    tex_format: tex_format_of(image_format)->Some_0,
                    buffer_len: (padded(width) * padded(height) * pixel_size(format)) as usize,
                },
            ),
        }
    }
}

/// The texel format that pixels of the tiled format `format` are stored in.
pub fn tex_format_for(format: ImageFormat) -> (tex: Option<TexFormat>)
    ensures
        tex == tex_format_of(format),
{
    match format {
        ImageFormat::Rgba8 => Some(TexFormat::Rgba8),
        ImageFormat::Rgb8 => Some(TexFormat::Rgb8),
        ImageFormat::Rgba5551 => Some(TexFormat::Rgba5551),
        ImageFormat::Rgb565 => Some(TexFormat::Rgb565),
        ImageFormat::Rgba4 => Some(TexFormat::Rgba4),
        ImageFormat::Luma8 => Some(TexFormat::La8),
        ImageFormat::Hilo8 => Some(TexFormat::HiLo8),
        ImageFormat::Lum8 => Some(TexFormat::L8),
        ImageFormat::Alpha8 => Some(TexFormat::A8),
        ImageFormat::Luma4 => Some(TexFormat::La4),
        ImageFormat::Lum4 => None,
        ImageFormat::Alpha4 => None,
    }
}

/// A texture that lives on the GPU.
#[derive(Debug)]
pub struct GpuImage {
    texture: u64,
    width: u32,
    height: u32,
    format: TexFormat,
    data: Vec<u8>,
}

impl GpuImage {
    /// The number that the driver knows the texture by.
    pub closed spec fn texture(self) -> u64 {
        self.texture
    }

    /// The size and the format of the texture.
    pub closed spec fn shape(self) -> (u32, u32, TexFormat) {
        (self.width, self.height, self.format)
    }

    /// The texels, in the GPU's tiled order.
    pub closed spec fn texels(self) -> Seq<u8> {
        self.data@
    }

    /// How an image of `width` by `height` pixels of the host format
    /// `format` becomes a texture, or why it cannot.
    pub fn plan(width: u32, height: u32, format: TextureFormat) -> (r: Result<
        TexturePlan,
        TextureError,
    >)
        ensures
            r == texture_plan(width, height, format),
    {
        if width > MAX_TEX_SIZE {
            return Err(TextureError::TooWide { width });
        }
        if height > MAX_TEX_SIZE {
            return Err(TextureError::TooTall { height });
        }
        let (image_format, tex_format, bytes): (ImageFormat, TexFormat, usize) = match format {
            TextureFormat::R8Unorm | TextureFormat::R8Uint => (
                ImageFormat::Lum8,
                TexFormat::L8,
                1,
            ),
            TextureFormat::Rg8Unorm => (ImageFormat::Luma8, TexFormat::La8, 2),
            TextureFormat::Rgba8Unorm | TextureFormat::Rgba8UnormSrgb => (
                ImageFormat::Rgba8,
                TexFormat::Rgba8,
                4,
            ),
            TextureFormat::Other => {
                return Err(TextureError::UnsupportedFormat);
            },
        };
        let w: u32 = if width < MIN_TEX_SIZE {
            MIN_TEX_SIZE
        } else {
            width
        };
        let h: u32 = if height < MIN_TEX_SIZE {
            MIN_TEX_SIZE
        } else {
            height
        };
        assert(w * h <= 1024 * 1024) by (nonlinear_arith)
            requires
                w <= 1024,
                h <= 1024,
        ;
        assert(w * h * bytes <= 4 * 1024 * 1024) by (nonlinear_arith)
            requires
                w * h <= 1024 * 1024,
                bytes <= 4,
        ;
        let texels: usize = w as usize * h as usize;
        Ok(
            TexturePlan {
                width: w,
                height: h,
                image_format,
                tex_format,
                buffer_len: texels * bytes,
            },
        )
    }

    /// The texture that the driver knows as `texture`, made after `plan`
    /// from the texels `data`.
    pub fn from_bevy(plan: &TexturePlan, texture: u64, data: Vec<u8>) -> (r: Result<
        GpuImage,
        TextureError,
    >)
        ensures
            data@.len() == plan.buffer_len ==> {
                &&& r is Ok
                &&& r->Ok_0.texture() == texture
                &&& r->Ok_0.shape() == (plan.width, plan.height, plan.tex_format)
                &&& r->Ok_0.texels() == data@
            },
            data@.len() != plan.buffer_len ==> r is Err && r->Err_0 == (TextureError::WrongLength {
                expected: plan.buffer_len,
                found: data@.len() as usize,
            }),
    {
        if data.len() != plan.buffer_len {
            return Err(TextureError::WrongLength { expected: plan.buffer_len, found: data.len() });
        }
        Ok(
            GpuImage {
                texture,
                width: plan.width,
                height: plan.height,
                format: plan.tex_format,
                data,
            },
        )
    }

    pub fn handle(&self) -> (texture: u64)
        ensures
            texture == self.texture(),
    {
        self.texture
    }

    pub fn width(&self) -> (w: u32)
        ensures
            w == self.shape().0,
    {
        self.width
    }

    pub fn height(&self) -> (h: u32)
        ensures
            h == self.shape().1,
    {
        self.height
    }

    pub fn format(&self) -> (f: TexFormat)
        ensures
            f == self.shape().2,
    {
        self.format
    }

    /// The size of the texture in bytes.
    pub fn len(&self) -> (n: usize)
        ensures
            n == self.texels().len(),
    {
        self.data.len()
    }

    /// The texels, in the GPU's tiled order.
    pub fn data(&self) -> (texels: &[u8])
        ensures
            texels@ == self.texels(),
    {
        self.data.as_slice()
    }
}

} // verus!
