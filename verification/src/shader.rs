//! Shader libraries as the render pass sees them: which entry points one
//! has, what came of building a program of each, and where its uniforms
//! live.

use vstd::prelude::*;
use crate::error::Citro3dError;

verus! {

/// The place of a uniform in a shader's uniform table.
#[derive(Debug, Clone, Copy, PartialEq, Eq, Structural)]
pub struct Index(pub u8);

/// One entry point of a shader library.
#[derive(Debug, Clone, Copy, PartialEq, Eq, Structural)]
pub struct Entrypoint {
    /// The library that the entry point belongs to.
    pub library: u64,
    /// Its place in the library's table of entry points.
    pub index: usize,
}

/// A uniform that a shader declares.
#[derive(Debug)]
pub struct UniformEntry {
    pub name: String,
    pub index: Index,
}

/// A shader library that the driver has loaded.
#[derive(Debug)]
pub struct PicaShader {
    library: u64,
    programs: Vec<Result<(), Citro3dError>>,
    uniforms: Vec<UniformEntry>,
}

/// The place of the first uniform called `name`, if there is one.
pub open spec fn find_uniform(uniforms: Seq<UniformEntry>, name: Seq<char>) -> Option<Index>
    decreases uniforms.len(),
{
    if uniforms.len() == 0 {
        None
    } else if uniforms[0].name@ == name {
        Some(uniforms[0].index)
    } else {
        find_uniform(uniforms.drop_first(), name)
    }
}

/// Why a shader could not be loaded.
#[derive(Debug)]
pub enum PicaShaderLoadError {
    /// The driver refused the library.
    Citro(Citro3dError),
    /// The bytes could not be read. Holds the system's error code.
    Io(i32),
    /// The bytes are no shader library.
    ShaderParse(String),
}

/// What the driver found in the bytes of a shader library.
#[derive(Debug)]
pub struct ParsedShader {
    /// The number that the driver knows the library by.
    pub library: u64,
    /// For every entry point of the library, in their order, what the
    /// driver answered when a program was built of it.
    pub programs: Vec<Result<(), Citro3dError>>,
    /// The uniforms that the library declares.
    pub uniforms: Vec<UniformEntry>,
}

/// What loading a shader gives, if the driver made `parsed` of its bytes:
/// the shader that the driver found, or the driver's words on why the bytes
/// are no shader library.
pub open spec fn loaded(parsed: Result<ParsedShader, String>, r: Result<
    PicaShader,
    PicaShaderLoadError,
>) -> bool {
    match parsed {
        Ok(found) => {
            &&& r is Ok
            &&& r->Ok_0.library() == found.library
            &&& r->Ok_0.programs() == found.programs@
            &&& r->Ok_0.uniforms() == found.uniforms@
        },
        Err(words) => r is Err && r->Err_0 == PicaShaderLoadError::ShaderParse(words),
    }
}

/// Loads shader libraries from files.
#[derive(Debug)]
pub struct PicaShaderLoader;

impl Default for PicaShaderLoader {
    fn default() -> (loader: Self) {
        PicaShaderLoader
    }
}

impl PicaShaderLoader {
    /// The extension of the files that hold shader libraries.
    pub fn extensions(&self) -> (extensions: Vec<&'static str>)
        ensures
            extensions@.len() == 1,
            extensions@[0]@ == "pica"@,
    {
        let mut extensions: Vec<&'static str> = Vec::new();
        extensions.push("pica");
        extensions
    }

    /// The shader in a file. `read` is what came of reading the file: the
    /// code of the system if it could not be read, else what the driver made
    /// of its bytes.
    pub fn load(&self, read: Result<Result<ParsedShader, String>, i32>) -> (r: Result<
        PicaShader,
        PicaShaderLoadError,
    >)
        ensures
            match read {
                Ok(parsed) => loaded(parsed, r),
                Err(code) => r is Err && r->Err_0 == PicaShaderLoadError::Io(code),
            },
    {
        match read {
            Ok(parsed) => PicaShader::load_from_bytes(parsed),
            Err(code) => Err(PicaShaderLoadError::Io(code)),
        }
    }
}

impl PicaShader {
    /// The shader that the driver made of the bytes of a library.
    pub fn load_from_bytes(parsed: Result<ParsedShader, String>) -> (r: Result<
        PicaShader,
        PicaShaderLoadError,
    >)
        ensures
            loaded(parsed, r),
    {
        match parsed {
            Ok(found) => Ok(PicaShader::new(found.library, found.programs, found.uniforms)),
            Err(words) => Err(PicaShaderLoadError::ShaderParse(words)),
        }
    }

    /// The number that the driver knows the library by.
    pub closed spec fn library(self) -> u64 {
        self.library
    }

    /// For every entry point of the library, in their order, what the
    /// driver answered when a program was built of it.
    pub closed spec fn programs(self) -> Seq<Result<(), Citro3dError>> {
        self.programs@
    }

    /// How many entry points the library has.
    pub open spec fn entry_count(self) -> nat {
        self.programs().len()
    }

    /// The uniforms that the library declares.
    pub closed spec fn uniforms(self) -> Seq<UniformEntry> {
        self.uniforms@
    }

    /// The library that the driver knows as `library`, with one entry point
    /// for each of `programs` and the uniforms listed.
    pub fn new(
        library: u64,
        programs: Vec<Result<(), Citro3dError>>,
        uniforms: Vec<UniformEntry>,
    ) -> (shader: PicaShader)
        ensures
            shader.library() == library,
            shader.programs() == programs@,
            shader.uniforms() == uniforms@,
    {
        PicaShader { library, programs, uniforms }
    }

    /// What the driver answered when a program was built of the entry point
    /// at `index`, if the library has that many.
    pub fn program(&self, index: usize) -> (built: Option<Result<(), Citro3dError>>)
        ensures
            built == (if index < self.entry_count() {
                Some(self.programs()[index as int])
            } else {
                None
            }),
    {
        if index < self.programs.len() {
            Some(self.programs[index])
        } else {
            None
        }
    }

    /// The entry point at `index`, if the library has that many.
    pub fn entry_point(&self, index: usize) -> (entry: Option<Entrypoint>)
        ensures
            index < self.entry_count() ==> entry == Some(
                Entrypoint { library: self.library(), index },
            ),
            index >= self.entry_count() ==> entry is None,
    {
        if index < self.programs.len() {
            Some(Entrypoint { library: self.library, index })
        } else {
            None
        }
    }

    /// Where the uniform called `name` lives.
    pub fn get_uniform(&self, name: &str) -> (index: Option<Index>)
        ensures
            index == find_uniform(self.uniforms(), name@),
    {
        let wanted: String = name.to_owned();
        let n: usize = self.uniforms.len();
        let mut i: usize = 0;
        assert(self.uniforms@.subrange(0, n as int) == self.uniforms@);
        while i < n
            invariant
                n == self.uniforms.len(),
                i <= n,
                wanted@ == name@,
                find_uniform(self.uniforms@, name@) == find_uniform(
                    self.uniforms@.subrange(i as int, n as int),
                    name@,
                ),
            decreases n - i,
        {
            let ghost rest = self.uniforms@.subrange(i as int, n as int);
            assert(rest[0] == self.uniforms@[i as int]);
            assert(rest.drop_first() == self.uniforms@.subrange(i + 1, n as int));
            if self.uniforms[i].name == wanted {
                return Some(self.uniforms[i].index);
            }
            i += 1;
        }
        None
    }
}

} // verus!
