use vstd::prelude::*;

use crate::scene::{ColorView, ColorWrapper};
use crate::text::starts_with_char;
use crate::vector::{Vec3f, Vec4f};

verus! {

/// One command-line word, together with its reading as a single-precision
/// number (the IEEE-754 bit pattern), when the word reads as one.
#[derive(Debug)]
pub struct Arg {
    pub text: String,
    pub num: Option<u32>,
}

impl Arg {
    /// A copy of the word and its reading.
    pub fn copied(&self) -> (r: Arg)
        ensures
            r == *self,
    {
        Arg { text: self.text.clone(), num: self.num }
    }
}

/// The view of a `Result` whose error is a `String`.
pub open spec fn res_view<T: View>(r: Result<T, String>) -> Result<T::V, Seq<char>> {
    match r {
        Ok(v) => Ok(v@),
        Err(e) => Err(e@),
    }
}

/// The message when the words run out.
pub open spec fn msg_ends() -> Seq<char> {
    "unexpected ends!"@
}

/// The message when a word does not read as a number.
pub open spec fn msg_not_f32() -> Seq<char> {
    "should be <f32>!"@
}

/// A value that is read from the words `args[pos..]`: the position after the
/// words it took, and the value or an error.
pub trait ParseFromStrIter: Sized + View {
    spec fn spec_parse(args: Seq<Arg>, pos: int) -> (int, Result<<Self as View>::V, Seq<char>>);

    /// Reads a value from `args[*pos..]` and advances `*pos` past the words
    /// read, also when the reading fails.
    fn parse(args: &Vec<Arg>, pos: &mut usize) -> (r: Result<Self, String>)
        requires
            *old(pos) <= args@.len(),
        ensures
            Self::spec_parse(args@, *old(pos) as int) == (*final(pos) as int, res_view(r)),
            *old(pos) <= *final(pos) <= args@.len(),
    ;
}

/// A number: one word that reads as a number.
pub open spec fn spec_scalar(args: Seq<Arg>, pos: int) -> (int, Result<u32, Seq<char>>) {
    if pos >= args.len() {
        (pos, Err(msg_ends()))
    } else {
        match args[pos].num {
            Some(b) => (pos + 1, Ok(b)),
            None => (pos + 1, Err(msg_not_f32())),
        }
    }
}

/// Three numbers `x y z`; the first failure ends the reading.
pub open spec fn spec_vec3(args: Seq<Arg>, pos: int) -> (int, Result<Vec3f, Seq<char>>) {
    let (p1, rx) = spec_scalar(args, pos);
    match rx {
        Err(e) => (p1, Err(e)),
        Ok(x) => {
            let (p2, ry) = spec_scalar(args, p1);
            match ry {
                Err(e) => (p2, Err(e)),
                Ok(y) => {
                    let (p3, rz) = spec_scalar(args, p2);
                    match rz {
                        Err(e) => (p3, Err(e)),
                        Ok(z) => (p3, Ok(Vec3f { x, y, z })),
                    }
                },
            }
        },
    }
}

/// Four numbers `w x y z`; the first failure ends the reading.
pub open spec fn spec_vec4(args: Seq<Arg>, pos: int) -> (int, Result<Vec4f, Seq<char>>) {
    let (p1, rw) = spec_scalar(args, pos);
    match rw {
        Err(e) => (p1, Err(e)),
        Ok(w) => {
            let (p2, rv) = spec_vec3(args, p1);
            match rv {
                Err(e) => (p2, Err(e)),
                Ok(v) => (p2, Ok(Vec4f { w, x: v.x, y: v.y, z: v.z })),
            }
        },
    }
}

/// A colour: a word starting with `#` is taken whole as a hex colour,
/// otherwise three numbers are read.
pub open spec fn spec_color(args: Seq<Arg>, pos: int) -> (int, Result<ColorView, Seq<char>>) {
    if pos >= args.len() {
        (pos, Err(msg_ends()))
    } else if args[pos].text@.len() > 0 && args[pos].text@[0] == '#' {
        (pos + 1, Ok(ColorView::Hex(args[pos].text@)))
    } else {
        let (p, r) = spec_vec3(args, pos);
        match r {
            Err(e) => (p, Err(e)),
            Ok(v) => (p, Ok(ColorView::Vec3(v))),
        }
    }
}

impl ParseFromStrIter for u32 {
    open spec fn spec_parse(args: Seq<Arg>, pos: int) -> (int, Result<u32, Seq<char>>) {
        spec_scalar(args, pos)
    }

    fn parse(args: &Vec<Arg>, pos: &mut usize) -> (r: Result<u32, String>) {
        if *pos >= args.len() {
            return Err(String::from_str("unexpected ends!"));
        }
        let a = &args[*pos];
        *pos = *pos + 1;
        match a.num {
            Some(b) => Ok(b),
            None => Err(String::from_str("should be <f32>!")),
        }
    }
}

impl ParseFromStrIter for Vec3f {
    open spec fn spec_parse(args: Seq<Arg>, pos: int) -> (int, Result<Vec3f, Seq<char>>) {
        spec_vec3(args, pos)
    }

    fn parse(args: &Vec<Arg>, pos: &mut usize) -> (r: Result<Vec3f, String>) {
        let x = <u32 as ParseFromStrIter>::parse(args, pos)?;
        let y = <u32 as ParseFromStrIter>::parse(args, pos)?;
        let z = <u32 as ParseFromStrIter>::parse(args, pos)?;
        Ok(Vec3f { x, y, z })
    }
}

impl ParseFromStrIter for Vec4f {
    open spec fn spec_parse(args: Seq<Arg>, pos: int) -> (int, Result<Vec4f, Seq<char>>) {
        spec_vec4(args, pos)
    }

    fn parse(args: &Vec<Arg>, pos: &mut usize) -> (r: Result<Vec4f, String>) {
        let w = <u32 as ParseFromStrIter>::parse(args, pos)?;
        let v = <Vec3f as ParseFromStrIter>::parse(args, pos)?;
        Ok(Vec4f { w, x: v.x, y: v.y, z: v.z })
    }
}

impl ParseFromStrIter for ColorWrapper {
    open spec fn spec_parse(args: Seq<Arg>, pos: int) -> (int, Result<ColorView, Seq<char>>) {
        spec_color(args, pos)
    }

    fn parse(args: &Vec<Arg>, pos: &mut usize) -> (r: Result<ColorWrapper, String>) {
        if *pos >= args.len() {
            return Err(String::from_str("unexpected ends!"));
        }
        let t = &args[*pos].text;
        if starts_with_char(t.as_str(), '#') {
            *pos = *pos + 1;
            return Ok(ColorWrapper::Hex(t.clone()));
        }
        let v = <Vec3f as ParseFromStrIter>::parse(args, pos)?;
        Ok(ColorWrapper::Vec3(v))
    }
}

/// A reading that succeeds within `a` reads the same from `a + b`.
pub proof fn lemma_vec3_prefix(a: Seq<Arg>, b: Seq<Arg>, pos: int)
    requires
        0 <= pos,
        spec_vec3(a, pos).1 is Ok,
    ensures
        spec_vec3(a + b, pos) == spec_vec3(a, pos),
{
    assert(forall|i: int| 0 <= i < a.len() ==> (a + b)[i] == a[i]);
}

pub proof fn lemma_scalar_prefix(a: Seq<Arg>, b: Seq<Arg>, pos: int)
    requires
        0 <= pos,
        spec_scalar(a, pos).1 is Ok,
    ensures
        spec_scalar(a + b, pos) == spec_scalar(a, pos),
{
    assert(forall|i: int| 0 <= i < a.len() ==> (a + b)[i] == a[i]);
}

pub proof fn lemma_vec4_prefix(a: Seq<Arg>, b: Seq<Arg>, pos: int)
    requires
        0 <= pos,
        spec_vec4(a, pos).1 is Ok,
    ensures
        spec_vec4(a + b, pos) == spec_vec4(a, pos),
{
    assert(forall|i: int| 0 <= i < a.len() ==> (a + b)[i] == a[i]);
}

pub proof fn lemma_color_prefix(a: Seq<Arg>, b: Seq<Arg>, pos: int)
    requires
        0 <= pos,
        spec_color(a, pos).1 is Ok,
    ensures
        spec_color(a + b, pos) == spec_color(a, pos),
{
    assert(forall|i: int| 0 <= i < a.len() ==> (a + b)[i] == a[i]);
}

/// Reading from `a + b` past `a` is reading from `b`, shifted.
pub proof fn lemma_scalar_shift(a: Seq<Arg>, b: Seq<Arg>, k: int)
    requires
        0 <= k,
    ensures
        spec_scalar(a + b, a.len() + k) == (a.len() + spec_scalar(b, k).0, spec_scalar(b, k).1),
{
    assert(forall|i: int| 0 <= i < b.len() ==> (a + b)[a.len() + i] == b[i]);
}

pub proof fn lemma_vec3_shift(a: Seq<Arg>, b: Seq<Arg>, k: int)
    requires
        0 <= k,
    ensures
        spec_vec3(a + b, a.len() + k) == (a.len() + spec_vec3(b, k).0, spec_vec3(b, k).1),
{
    assert(forall|i: int| 0 <= i < b.len() ==> (a + b)[a.len() + i] == b[i]);
}

pub proof fn lemma_vec4_shift(a: Seq<Arg>, b: Seq<Arg>, k: int)
    requires
        0 <= k,
    ensures
        spec_vec4(a + b, a.len() + k) == (a.len() + spec_vec4(b, k).0, spec_vec4(b, k).1),
{
    assert(forall|i: int| 0 <= i < b.len() ==> (a + b)[a.len() + i] == b[i]);
}

pub proof fn lemma_color_shift(a: Seq<Arg>, b: Seq<Arg>, k: int)
    requires
        0 <= k,
    ensures
        spec_color(a + b, a.len() + k) == (a.len() + spec_color(b, k).0, spec_color(b, k).1),
{
    assert(forall|i: int| 0 <= i < b.len() ==> (a + b)[a.len() + i] == b[i]);
}

} // verus!
