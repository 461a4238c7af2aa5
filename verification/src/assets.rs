use vstd::prelude::*;

use crate::args::res_view;
use crate::inline::{pack_inline, spec_pack_inline, spec_unpack_inline, unpack_inline};
use crate::scene::{MeshView, MeshWrapper, TextureView, TextureWrapper};
use crate::text::contains_char;
use crate::vector::Vec3f;

verus! {

/// The triangles of a mesh whose faces are the vertex index triples
/// `polys` into the positions `pos`: face `i` becomes the triangle of the
/// three positions it names, in order.
pub fn mesh_from_polys(pos: &Vec<Vec3f>, polys: &Vec<(usize, usize, usize)>) -> (r: Vec<
    (Vec3f, Vec3f, Vec3f),
>)
    requires
        forall|i: int|
            0 <= i < polys@.len() ==> {
                &&& (#[trigger] polys@[i]).0 < pos@.len()
                &&& polys@[i].1 < pos@.len()
                &&& polys@[i].2 < pos@.len()
            },
    ensures
        r@.len() == polys@.len(),
        forall|i: int|
            0 <= i < polys@.len() ==> #[trigger] r@[i] == (
                pos@[polys@[i].0 as int],
                pos@[polys@[i].1 as int],
                pos@[polys@[i].2 as int],
            ),
{
    let mut out: Vec<(Vec3f, Vec3f, Vec3f)> = Vec::new();
    let mut k: usize = 0;
    while k < polys.len()
        invariant
            k <= polys@.len(),
            out@.len() == k,
            forall|i: int|
                0 <= i < polys@.len() ==> {
                    &&& (#[trigger] polys@[i]).0 < pos@.len()
                    &&& polys@[i].1 < pos@.len()
                    &&& polys@[i].2 < pos@.len()
                },
            forall|i: int|
                0 <= i < k ==> #[trigger] out@[i] == (
                    pos@[polys@[i].0 as int],
                    pos@[polys@[i].1 as int],
                    pos@[polys@[i].2 as int],
                ),
        decreases polys@.len() - k,
    {
        let (a, b, c) = polys[k];
        out.push((pos[a], pos[b], pos[c]));
        k = k + 1;
    }
    out
}

/// `r` is a result that `f` may give for a string whose characters are
/// `arg`.
pub open spec fn gives<T, F: FnOnce(&str) -> Result<T, String>>(
    f: F,
    arg: Seq<char>,
    r: Result<T, String>,
) -> bool {
    exists|a: &str| a@ == arg && #[trigger] f.ensures((a,), r)
}

/// `r` is a result of reading the inline form `packed` with `parse`: the
/// unpacking error, or a result that `parse` gives for the unpacked text.
pub open spec fn read_inline<T: View, P: FnOnce(&str) -> Result<T, String>>(
    parse: P,
    packed: Seq<char>,
    r: Result<T, String>,
) -> bool {
    match spec_unpack_inline(packed) {
        Err(e) => res_view(r) == Err::<T::V, Seq<char>>(e),
        Ok(text) => gives(parse, text, r),
    }
}

/// `r` is what bringing a texture `t` into pixel form may give.
pub open spec fn texture_buffered<
    L: FnOnce(&str) -> Result<TextureWrapper, String>,
    P: FnOnce(&str) -> Result<TextureWrapper, String>,
>(t: TextureView, load: L, parse: P, r: Result<TextureWrapper, String>) -> bool {
    match t {
        TextureView::Buffer(b) => r matches Ok(x) && x@ == TextureView::Buffer(b),
        TextureView::File(n) => gives(load, n, r),
        TextureView::InlineBase64(s) => if s.contains('.') {
            gives(load, s, r)
        } else {
            read_inline(parse, s, r)
        },
    }
}

/// `r` is what bringing a mesh `m` into triangle form may give.
pub open spec fn mesh_buffered<
    L: FnOnce(&str) -> Result<MeshWrapper, String>,
    P: FnOnce(&str) -> Result<MeshWrapper, String>,
>(m: MeshView, load: L, parse: P, r: Result<MeshWrapper, String>) -> bool {
    match m {
        MeshView::Mesh(t) => r matches Ok(x) && x@ == MeshView::Mesh(t),
        MeshView::File(n) => gives(load, n, r),
        MeshView::InlineBase64(s) => if s.contains('.') {
            gives(load, s, r)
        } else {
            read_inline(parse, s, r)
        },
    }
}

/// A mesh packed inline is read back through the text reader: when
/// `packed` unpacks to `text` and holds no `.` (as `pack_inline`
/// guarantees of what it returns), bringing `InlineBase64(packed)` into
/// triangle form gives exactly the results that `parse` gives for `text`,
/// and never calls `load`.
pub proof fn lemma_packed_mesh_reads_back<
    L: FnOnce(&str) -> Result<MeshWrapper, String>,
    P: FnOnce(&str) -> Result<MeshWrapper, String>,
>(packed: Seq<char>, text: Seq<char>, load: L, parse: P, r: Result<MeshWrapper, String>)
    requires
        spec_unpack_inline(packed) == Ok::<Seq<char>, Seq<char>>(text),
        !packed.contains('.'),
    ensures
        mesh_buffered(MeshView::InlineBase64(packed), load, parse, r) <==> gives(parse, text, r),
{
}

/// A texture packed inline is read back through the text reader: when
/// `packed` unpacks to `text` and holds no `.`, bringing
/// `InlineBase64(packed)` into pixel form gives exactly the results that
/// `parse` gives for `text`, and never calls `load`.
pub proof fn lemma_packed_texture_reads_back<
    L: FnOnce(&str) -> Result<TextureWrapper, String>,
    P: FnOnce(&str) -> Result<TextureWrapper, String>,
>(packed: Seq<char>, text: Seq<char>, load: L, parse: P, r: Result<TextureWrapper, String>)
    requires
        spec_unpack_inline(packed) == Ok::<Seq<char>, Seq<char>>(text),
        !packed.contains('.'),
    ensures
        texture_buffered(TextureView::InlineBase64(packed), load, parse, r) <==> gives(
            parse,
            text,
            r,
        ),
{
}

/// An inline texture string that holds a `.` names a file: bringing it into
/// pixel form gives exactly the results that `load` gives for that string,
/// whatever `parse` would make of it.
pub proof fn lemma_dotted_inline_texture_is_loaded<
    L: FnOnce(&str) -> Result<TextureWrapper, String>,
    P: FnOnce(&str) -> Result<TextureWrapper, String>,
>(s: Seq<char>, load: L, parse: P, r: Result<TextureWrapper, String>)
    requires
        s.contains('.'),
    ensures
        texture_buffered(TextureView::InlineBase64(s), load, parse, r) <==> gives(load, s, r),
{
}

/// An inline mesh string that holds a `.` names a file: bringing it into
/// triangle form gives exactly the results that `load` gives for that
/// string, whatever `parse` would make of it.
pub proof fn lemma_dotted_inline_mesh_is_loaded<
    L: FnOnce(&str) -> Result<MeshWrapper, String>,
    P: FnOnce(&str) -> Result<MeshWrapper, String>,
>(s: Seq<char>, load: L, parse: P, r: Result<MeshWrapper, String>)
    requires
        s.contains('.'),
    ensures
        mesh_buffered(MeshView::InlineBase64(s), load, parse, r) <==> gives(load, s, r),
{
}

impl MeshWrapper {
    /// The inline form of a mesh described by the JSON text `text`: the
    /// packed text, which holds no `.` and unpacks to `text`, so that bringing
    /// it into buffer form reads `text` back (`lemma_packed_mesh_reads_back`).
    pub fn inline_text(text: &str) -> (r: MeshWrapper)
        ensures
            spec_pack_inline(text@) is Ok,
            r@ == MeshView::InlineBase64(spec_pack_inline(text@)->Ok_0),
            !spec_pack_inline(text@)->Ok_0.contains('.'),
            spec_unpack_inline(spec_pack_inline(text@)->Ok_0) == Ok::<Seq<char>, Seq<char>>(text@),
    {
        MeshWrapper::InlineBase64(pack_inline(text).unwrap())
    }

    /// Reads an inline mesh: unpacks it and reads the text with `parse` (a
    /// JSON reader of meshes).
    pub fn from_inline<P: FnOnce(&str) -> Result<MeshWrapper, String>>(s: &str, parse: P) -> (r:
        Result<MeshWrapper, String>)
        requires
            forall|j: &str| parse.requires((j,)),
        ensures
            read_inline(parse, s@, r),
    {
        let text = unpack_inline(s)?;
        let r = parse(text.as_str());
        assert(gives(parse, text@, r));
        r
    }

    /// Brings the mesh into triangle form: a triangle list is returned as it
    /// is; a file is read with `load` (an OBJ reader); an inline string is
    /// read with `load` when it holds a `.` (it then names a file), and
    /// unpacked and read with `parse` otherwise.
    pub fn to_buffer<
        L: FnOnce(&str) -> Result<MeshWrapper, String>,
        P: FnOnce(&str) -> Result<MeshWrapper, String>,
    >(self, load: L, parse: P) -> (r: Result<MeshWrapper, String>)
        requires
            forall|n: &str| load.requires((n,)),
            forall|j: &str| parse.requires((j,)),
        ensures
            mesh_buffered(self@, load, parse, r),
    {
        match self {
            MeshWrapper::File(name) => {
                let r = load(name.as_str());
                assert(gives(load, name@, r));
                r
            },
            MeshWrapper::InlineBase64(s) => {
                if contains_char(s.as_str(), '.') {
                    let r = load(s.as_str());
                    assert(gives(load, s@, r));
                    r
                } else {
                    MeshWrapper::from_inline(s.as_str(), parse)
                }
            },
            other => Ok(other),
        }
    }
}

impl TextureWrapper {
    /// The inline form of a texture described by the JSON text `text`: the
    /// packed text, which holds no `.` and unpacks to `text`, so that bringing
    /// it into buffer form reads `text` back (`lemma_packed_texture_reads_back`).
    pub fn inline_text(text: &str) -> (r: TextureWrapper)
        ensures
            spec_pack_inline(text@) is Ok,
            r@ == TextureView::InlineBase64(spec_pack_inline(text@)->Ok_0),
            !spec_pack_inline(text@)->Ok_0.contains('.'),
            spec_unpack_inline(spec_pack_inline(text@)->Ok_0) == Ok::<Seq<char>, Seq<char>>(text@),
    {
        TextureWrapper::InlineBase64(pack_inline(text).unwrap())
    }

    /// Reads an inline texture: unpacks it and reads the text with `parse`
    /// (a JSON reader of textures).
    pub fn from_inline<P: FnOnce(&str) -> Result<TextureWrapper, String>>(s: &str, parse: P) -> (r:
        Result<TextureWrapper, String>)
        requires
            forall|j: &str| parse.requires((j,)),
        ensures
            read_inline(parse, s@, r),
    {
        let text = unpack_inline(s)?;
        let r = parse(text.as_str());
        assert(gives(parse, text@, r));
        r
    }

    /// Brings the texture into pixel form: a buffer is returned as it is; a
    /// file is read with `load` (an image reader); an inline string is read
    /// with `load` when it holds a `.` (it then names a file), and unpacked
    /// and read with `parse` otherwise.
    pub fn to_buffer<
        L: FnOnce(&str) -> Result<TextureWrapper, String>,
        P: FnOnce(&str) -> Result<TextureWrapper, String>,
    >(self, load: L, parse: P) -> (r: Result<TextureWrapper, String>)
        requires
            forall|n: &str| load.requires((n,)),
            forall|j: &str| parse.requires((j,)),
        ensures
            texture_buffered(self@, load, parse, r),
    {
        match self {
            TextureWrapper::File(name) => {
                let r = load(name.as_str());
                assert(gives(load, name@, r));
                r
            },
            TextureWrapper::InlineBase64(s) => {
                if contains_char(s.as_str(), '.') {
                    let r = load(s.as_str());
                    assert(gives(load, s@, r));
                    r
                } else {
                    TextureWrapper::from_inline(s.as_str(), parse)
                }
            },
            other => Ok(other),
        }
    }
}

} // verus!
