use bevy_3ds::error::{Citro3dError, RenderError};
use bevy_3ds::material::Uniforms;
use bevy_3ds::shader::{
    Entrypoint, Index, ParsedShader, PicaShader, PicaShaderLoadError, PicaShaderLoader,
    UniformEntry,
};

fn uniform(name: &str, index: u8) -> UniformEntry {
    UniformEntry { name: name.to_string(), index: Index(index) }
}

fn all_uniforms() -> Vec<UniformEntry> {
    vec![
        uniform("projMtx", 0),
        uniform("camMtx", 4),
        uniform("modelMtx", 8),
        uniform("lightClr", 12),
        uniform("mat_emi", 13),
        uniform("mat_amb", 14),
        uniform("mat_dif", 15),
        uniform("mat_spe", 16),
    ]
}

#[test]
fn entry_points_are_counted_from_zero() {
    let shader = PicaShader::new(9, vec![Ok(()); 2], vec![]);
    assert_eq!(shader.entry_point(0), Some(Entrypoint { library: 9, index: 0 }));
    assert_eq!(shader.entry_point(1), Some(Entrypoint { library: 9, index: 1 }));
    assert_eq!(shader.entry_point(2), None);
    assert_eq!(PicaShader::new(9, vec![Ok(()); 0], vec![]).entry_point(0), None);
}

#[test]
fn uniforms_are_found_by_name() {
    let shader = PicaShader::new(
        1,
        vec![Ok(())],
        vec![uniform("a", 1), uniform("b", 2), uniform("a", 3), uniform("", 4)],
    );
    assert_eq!(shader.get_uniform("a"), Some(Index(1)));
    assert_eq!(shader.get_uniform("b"), Some(Index(2)));
    assert_eq!(shader.get_uniform(""), Some(Index(4)));
    assert_eq!(shader.get_uniform("c"), None);
    assert_eq!(shader.get_uniform("A"), None);
}

#[test]
fn all_eight_uniforms_are_needed() {
    let shader = PicaShader::new(1, vec![Ok(()); 1], all_uniforms());
    assert_eq!(
        Uniforms::build(&shader),
        Ok(Uniforms {
            model_matrix: Index(8),
            camera_matrix: Index(4),
            projection_matrix: Index(0),
            light_colour: Index(12),
            material_emission: Index(13),
            material_ambient: Index(14),
            material_diffuse: Index(15),
            material_specular: Index(16),
        })
    );
    for missing in 0..8 {
        let mut uniforms = all_uniforms();
        uniforms.remove(missing);
        let shader = PicaShader::new(1, vec![Ok(()); 1], uniforms);
        assert_eq!(
            Uniforms::build(&shader),
            Err(RenderError::Citro3d(Citro3dError::NotFound))
        );
    }
}

#[test]
fn loader_takes_pica_files() {
    assert_eq!(PicaShaderLoader::default().extensions(), vec!["pica"]);
}

#[test]
fn loading_hands_on_what_the_driver_found() {
    let parsed = ParsedShader {
        library: 5,
        programs: vec![Ok(()), Err(Citro3dError::InvalidSize), Ok(())],
        uniforms: vec![uniform("u", 2)],
    };
    let shader = PicaShaderLoader.load(Ok(Ok(parsed))).unwrap();
    assert_eq!(shader.entry_point(2), Some(Entrypoint { library: 5, index: 2 }));
    assert_eq!(shader.program(0), Some(Ok(())));
    assert_eq!(shader.program(1), Some(Err(Citro3dError::InvalidSize)));
    assert_eq!(shader.program(3), None);
    assert_eq!(shader.get_uniform("u"), Some(Index(2)));

    let refused = PicaShader::load_from_bytes(Err("bad magic".to_string()));
    assert!(matches!(refused, Err(PicaShaderLoadError::ShaderParse(words)) if words == "bad magic"));
    let refused = PicaShaderLoader.load(Ok(Err("short".to_string())));
    assert!(matches!(refused, Err(PicaShaderLoadError::ShaderParse(words)) if words == "short"));
    assert!(matches!(PicaShaderLoader.load(Err(-2)), Err(PicaShaderLoadError::Io(-2))));
}
