//! Shader programs of the OpenGL renderer: handles, errors, and the decisions
//! taken on what the driver reports.
use vstd::prelude::*;
use vstd::utf8::{valid_utf8, decode_utf8};
use vstd::string::StringSliceAdditionalSpecFns;

verus! {

/// A compiled and linked shader program, by its driver id.
#[derive(Debug, Clone, Copy, PartialEq, Eq, Structural)]
pub struct Shader(pub u32);

impl Shader {
    pub fn new(id: u32) -> (s: Shader)
        ensures
            s == Shader(id),
    {
        Shader(id)
    }
}

/// Why a shader could not be built.
#[derive(Debug)]
pub enum ShaderError {
    /// The source holds a NUL byte, or the driver's log is not UTF-8.
    StringError,
    /// The driver rejected the shader; its log.
    CompileError(String),
}

/// `String::from_utf8`: `Some` exactly when `bytes` are UTF-8, with the text
/// they encode.
#[verifier::external_body]
fn utf8_string(bytes: Vec<u8>) -> (r: Option<String>)
    ensures
        r is Some <==> valid_utf8(bytes@),
        r matches Some(s) ==> s@ == decode_utf8(bytes@),
{
    String::from_utf8(bytes).ok()
}

/// The status value by which the driver reports success.
pub const GL_TRUE: i32 = 1;

/// Shader sources are handed to the driver as C strings, which cannot hold a NUL
/// byte: such a source is a `StringError`.
pub fn check_source(source: &str) -> (r: Result<(), ShaderError>)
    ensures
        r is Ok <==> !source.spec_bytes().contains(0u8),
        r matches Err(e) ==> e is StringError,
{
    let bytes = source.as_bytes();
    let mut i: usize = 0;
    while i < bytes.len()
        invariant
            bytes@ == source.spec_bytes(),
            i <= bytes.len(),
            forall|j: int| 0 <= j < i ==> bytes@[j] != 0u8,
        decreases bytes.len() - i,
    {
        if bytes[i] == 0 {
            assert(bytes@[i as int] == 0u8);
            return Err(ShaderError::StringError);
        }
        i = i + 1;
    }
    Ok(())
}

/// What a compile or link step yields, given the object's id, the status the
/// driver reported and the driver's log: the id when the status is `GL_TRUE`,
/// else the log as a `CompileError` (a log that is not UTF-8 is a `StringError`).
pub fn step_result(id: u32, status: i32, log: Vec<u8>) -> (r: Result<u32, ShaderError>)
    ensures
        status == GL_TRUE ==> r == Ok::<u32, ShaderError>(id),
        status != GL_TRUE ==> match r {
            Ok(_) => false,
            Err(ShaderError::CompileError(s)) => valid_utf8(log@) && s@ == decode_utf8(log@),
            Err(ShaderError::StringError) => !valid_utf8(log@),
        },
{
    if status == GL_TRUE {
        Ok(id)
    } else {
        match utf8_string(log) {
            Some(s) => Err(ShaderError::CompileError(s)),
            None => Err(ShaderError::StringError),
        }
    }
}

/// The OpenGL renderer's view of the window: its size in pixels.
pub struct GLApi {
    size: (usize, usize),
}

impl GLApi {
    /// A renderer for a window of `width` by `height` pixels.
    pub fn new(width: usize, height: usize) -> (api: GLApi)
        ensures
            api.spec_size() == (width, height),
    {
        GLApi { size: (width, height) }
    }

    /// The window size.
    pub closed spec fn spec_size(&self) -> (usize, usize) {
        self.size
    }

    /// Record a new window size.
    pub fn resize(&mut self, width: usize, height: usize)
        ensures
            final(self).spec_size() == (width, height),
    {
        self.size = (width, height);
    }

    /// The window size.
    pub fn size(&self) -> (s: (usize, usize))
        ensures
            s == self.spec_size(),
    {
        self.size
    }
}

} // verus!
