use vstd::prelude::*;
use crate::device::{
    backbuffer_same, copy_vec, resources_same, Device, Resource,
};

verus! {

/// Shader bytecode as the renderer holds it: embedded into the binary at
/// build time, or a blob the platform's shader compiler produced at
/// startup.
#[derive(Clone, PartialEq, Eq, Debug)]
pub enum ShaderData {
    EmbeddedData(Vec<u8>),
    CompiledBlob(Vec<u8>),
}

impl ShaderData {
    /// The bytecode bytes, wherever they came from.
    pub open spec fn bytes(self) -> Seq<u8> {
        match self {
            ShaderData::EmbeddedData(b) => b@,
            ShaderData::CompiledBlob(b) => b@,
        }
    }
}

/// The compiled vertex and pixel shader programs, created once at
/// initialization against the host device; the vertex bytecode is kept so
/// the input layout can be built against it.
pub struct CompiledShaders {
    pub vertex: usize,
    pub pixel: usize,
    pub cache: ShaderData,
}

impl CompiledShaders {
    /// The vertex bytecode the input layout is built against.
    pub open spec fn cached_bytes(self) -> Seq<u8> {
        self.cache.bytes()
    }

    /// Creates the vertex and pixel shader objects from their bytecode.
    pub fn new(device: &mut Device, vertex_bytecode: Vec<u8>, pixel_bytecode: Vec<u8>) -> (s: Self)
        requires
            old(device).wf(),
            old(device).n() + 2 <= usize::MAX,
        ensures
            final(device).wf(),
            final(device).n() == old(device).n() + 2,
            s.vertex == old(device).n(),
            s.pixel == old(device).n() + 1,
            final(device).res(s.vertex) matches Some(Resource::VertexShader(b))
                && b@ == vertex_bytecode@,
            final(device).res(s.pixel) matches Some(Resource::PixelShader(b))
                && b@ == pixel_bytecode@,
            final(device).rc(s.vertex) == 1,
            final(device).rc(s.pixel) == 1,
            s.cached_bytes() == vertex_bytecode@,
            forall|x: usize| #![trigger final(device).res(x)]
                x != s.vertex && x != s.pixel ==> final(device).res(x) == old(device).res(x),
            forall|x: usize| #![trigger final(device).rc(x)]
                x != s.vertex && x != s.pixel ==> final(device).rc(x) == old(device).rc(x),
            backbuffer_same(*old(device), *final(device)),
    {
        let cache = ShaderData::EmbeddedData(copy_vec(&vertex_bytecode));
        let vertex = device.create(Resource::VertexShader(vertex_bytecode));
        let pixel = device.create(Resource::PixelShader(pixel_bytecode));
        CompiledShaders { vertex, pixel, cache }
    }

    /// The vertex bytecode, for building the input layout.
    pub fn bytecode(&self) -> (b: &Vec<u8>)
        ensures
            b@ == self.cached_bytes(),
    {
        match &self.cache {
            ShaderData::EmbeddedData(b) => b,
            ShaderData::CompiledBlob(b) => b,
        }
    }
}

} // verus!
