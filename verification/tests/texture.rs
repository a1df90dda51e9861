use bevy_3ds::texenv::{CombineFunc, Combiner, Mode, Source, Stage, TexEnv};
use bevy_3ds::texture::{
    tex_format_for, GpuImage, ImageFormat, TexFormat, TextureError, TextureFormat, TexturePlan,
};

#[test]
fn small_images_are_padded_to_eight() {
    assert_eq!(
        GpuImage::plan(3, 100, TextureFormat::Rgba8UnormSrgb),
        Ok(TexturePlan {
            width: 8,
            height: 100,
            image_format: ImageFormat::Rgba8,
            tex_format: TexFormat::Rgba8,
            buffer_len: 3200,
        })
    );
    assert_eq!(
        GpuImage::plan(0, 0, TextureFormat::R8Uint),
        Ok(TexturePlan {
            width: 8,
            height: 8,
            image_format: ImageFormat::Lum8,
            tex_format: TexFormat::L8,
            buffer_len: 64,
        })
    );
}

#[test]
fn largest_texture_is_1024_square() {
    let plan = GpuImage::plan(1024, 1024, TextureFormat::Rg8Unorm).unwrap();
    assert_eq!(plan.image_format, ImageFormat::Luma8);
    assert_eq!(plan.tex_format, TexFormat::La8);
    assert_eq!(plan.buffer_len, 2 * 1024 * 1024);
    assert_eq!(
        GpuImage::plan(1025, 4000, TextureFormat::Rgba8Unorm),
        Err(TextureError::TooWide { width: 1025 })
    );
    assert_eq!(
        GpuImage::plan(1024, 1025, TextureFormat::Other),
        Err(TextureError::TooTall { height: 1025 })
    );
    assert_eq!(GpuImage::plan(8, 8, TextureFormat::Other), Err(TextureError::UnsupportedFormat));
}

#[test]
fn texture_holds_what_the_plan_asks_for() {
    let plan = GpuImage::plan(8, 8, TextureFormat::R8Unorm).unwrap();
    let image = GpuImage::from_bevy(&plan, 42, vec![7; 64]).unwrap();
    assert_eq!(image.handle(), 42);
    assert_eq!((image.width(), image.height()), (8, 8));
    assert_eq!(image.format(), TexFormat::L8);
    assert_eq!(image.len(), 64);
    assert_eq!(image.data(), &[7u8; 64][..]);
    assert_eq!(
        GpuImage::from_bevy(&plan, 42, vec![7; 63]).err(),
        Some(TextureError::WrongLength { expected: 64, found: 63 })
    );
}

#[test]
fn tiled_formats_have_texel_formats() {
    assert_eq!(tex_format_for(ImageFormat::Luma8), Some(TexFormat::La8));
    assert_eq!(tex_format_for(ImageFormat::Hilo8), Some(TexFormat::HiLo8));
    assert_eq!(tex_format_for(ImageFormat::Rgb565), Some(TexFormat::Rgb565));
    assert_eq!(tex_format_for(ImageFormat::Alpha4), None);
}

#[test]
fn combiner_has_six_stages() {
    assert_eq!(Stage::new(0).unwrap().number(), 0);
    assert_eq!(Stage::new(5).unwrap().number(), 5);
    assert_eq!(Stage::new(6), None);
}

#[test]
fn stage_settings_are_built_half_by_half() {
    let through = Combiner {
        source0: Source::Previous,
        source1: Source::PrimaryColor,
        source2: Source::PrimaryColor,
        func: CombineFunc::Replace,
    };
    assert_eq!(TexEnv::new(), TexEnv { rgb: through, alpha: through });
    let env = TexEnv::new()
        .src(Mode::BOTH, Source::Texture0, Some(Source::FragmentPrimaryColor), None)
        .func(Mode::RGB, CombineFunc::Modulate);
    let expected = Combiner {
        source0: Source::Texture0,
        source1: Source::FragmentPrimaryColor,
        source2: Source::PrimaryColor,
        func: CombineFunc::Modulate,
    };
    assert_eq!(env.rgb, expected);
    assert_eq!(env.alpha, Combiner { func: CombineFunc::Replace, ..expected });
    let alpha_only = env.src(Mode::ALPHA, Source::Constant, None, Some(Source::Texture1));
    assert_eq!(alpha_only.rgb, expected);
    assert_eq!(
        alpha_only.alpha,
        Combiner {
            source0: Source::Constant,
            source1: Source::PrimaryColor,
            source2: Source::Texture1,
            func: CombineFunc::Replace,
        }
    );
    assert_eq!(alpha_only.reset(), TexEnv::new());
}
