use vstd::prelude::*;

use crate::args::Arg;
use crate::from_args::FromArgs;
use crate::scene::{LightWrapper, RendererWrapper, SceneWrapper};
use crate::text::str_eq;

verus! {

/// Whether the word is one of the type words `pat`.
pub open spec fn is_pat(pat: Seq<&str>, w: Seq<char>) -> bool {
    exists|k: int| 0 <= k < pat.len() && (#[trigger] pat[k])@ == w
}

/// Where the last object of `args` begins: the index of the last type word,
/// or 0 when there is none.
pub open spec fn last_start(args: Seq<Arg>, pat: Seq<&str>) -> int
    decreases args.len(),
{
    if args.len() == 0 {
        0
    } else if is_pat(pat, args.last().text@) {
        args.len() - 1
    } else {
        last_start(args.drop_last(), pat)
    }
}

pub proof fn lemma_last_start_bounds(args: Seq<Arg>, pat: Seq<&str>)
    ensures
        0 <= last_start(args, pat),
        args.len() > 0 ==> last_start(args, pat) < args.len(),
    decreases args.len(),
{
    if args.len() > 0 && !is_pat(pat, args.last().text@) {
        lemma_last_start_bounds(args.drop_last(), pat);
    }
}

/// The objects that the words give, read from the last one to the first:
/// each object is the words from a type word up to the next type word, and
/// words before the first type word form an object of their own.  The first
/// object (in this order) whose words give an error ends the reading with
/// that error.
pub open spec fn parse_objects<T: FromArgs>(args: Seq<Arg>, pat: Seq<&str>) -> Result<
    Seq<<T as View>::V>,
    Seq<char>,
>
    decreases args.len(),
{
    if args.len() == 0 {
        Ok(seq![])
    } else {
        proof {
            lemma_last_start_bounds(args, pat);
        }
        let i = last_start(args, pat);
        match T::spec_from_args(args.subrange(i, args.len() as int)) {
            Err(e) => Err(e),
            Ok(v) => match parse_objects::<T>(args.subrange(0, i), pat) {
                Err(e) => Err(e),
                Ok(vs) => Ok(seq![v] + vs),
            },
        }
    }
}

proof fn lemma_last_start_concat(a: Seq<Arg>, b: Seq<Arg>, pat: Seq<&str>)
    requires
        b.len() > 0,
        is_pat(pat, b[0].text@),
    ensures
        last_start(a + b, pat) == a.len() + last_start(b, pat),
    decreases b.len(),
{
    let ab = a + b;
    assert(ab.last() == b.last());
    if !is_pat(pat, b.last().text@) {
        assert(ab.drop_last() =~= a + b.drop_last());
        assert(b.drop_last()[0] == b[0]);
        lemma_last_start_concat(a, b.drop_last(), pat);
    }
}

/// Objects written one after another are all read, the later ones first:
/// when `b` begins with a type word, reading the words `a + b` gives the
/// objects of `b` followed by those of `a`, or the first error met in that
/// order.
pub proof fn lemma_parse_objects_concat<T: FromArgs>(a: Seq<Arg>, b: Seq<Arg>, pat: Seq<&str>)
    requires
        b.len() > 0,
        is_pat(pat, b[0].text@),
    ensures
        parse_objects::<T>(a + b, pat) == match parse_objects::<T>(b, pat) {
            Err(e) => Err(e),
            Ok(vb) => match parse_objects::<T>(a, pat) {
                Err(e) => Err(e),
                Ok(va) => Ok(vb + va),
            },
        },
    decreases b.len(),
{
    let ab = a + b;
    lemma_last_start_concat(a, b, pat);
    lemma_last_start_bounds(b, pat);
    let j = last_start(b, pat);
    let i = last_start(ab, pat);
    assert(ab.subrange(i, ab.len() as int) =~= b.subrange(j, b.len() as int));
    let bp = b.subrange(0, j);
    assert(ab.subrange(0, i) =~= a + bp);
    if j == 0 {
        assert(a + bp =~= a);
        assert(bp.len() == 0);
        match T::spec_from_args(b.subrange(j, b.len() as int)) {
            Err(_) => {},
            Ok(v) => {
                match parse_objects::<T>(a, pat) {
                    Err(_) => {},
                    Ok(va) => {
                        assert(seq![v] + Seq::<<T as View>::V>::empty() =~= seq![v]);
                    },
                }
            },
        }
    } else {
        assert(bp[0] == b[0]);
        lemma_parse_objects_concat::<T>(a, bp, pat);
        match T::spec_from_args(b.subrange(j, b.len() as int)) {
            Err(_) => {},
            Ok(v) => {
                match parse_objects::<T>(bp, pat) {
                    Err(_) => {},
                    Ok(vbp) => {
                        match parse_objects::<T>(a, pat) {
                            Err(_) => {},
                            Ok(va) => {
                                assert(seq![v] + (vbp + va) =~= (seq![v] + vbp) + va);
                            },
                        }
                    },
                }
            },
        }
    }
}

/// The view of a list of values.
pub open spec fn vec_view<T: View>(v: Seq<T>) -> Seq<<T as View>::V> {
    v.map_values(|x: T| x@)
}

/// The view of a `Result` that holds a list.
pub open spec fn res_vec_view<T: View>(r: Result<Vec<T>, String>) -> Result<Seq<<T as View>::V>, Seq<char>> {
    match r {
        Ok(v) => Ok(vec_view(v@)),
        Err(e) => Err(e@),
    }
}

/// Whether the word is one of the type words `pat`.
fn word_in(pat: &[&str], w: &String) -> (r: bool)
    ensures
        r == is_pat(pat@, w@),
{
    let n = pat.len();
    let mut k: usize = 0;
    while k < n
        invariant
            n == pat@.len(),
            k <= n,
            forall|j: int| 0 <= j < k ==> (#[trigger] pat@[j])@ != w@,
        decreases n - k,
    {
        if str_eq(pat[k], w.as_str()) {
            assert((pat@[k as int])@ == w@);
            return true;
        }
        k = k + 1;
    }
    false
}

proof fn lemma_last_start_at(args: Seq<Arg>, pat: Seq<&str>, end: int, k: int)
    requires
        0 <= k < end <= args.len(),
        is_pat(pat, args[k].text@),
        forall|j: int| k < j < end ==> !is_pat(pat, #[trigger] args[j].text@),
    ensures
        last_start(args.subrange(0, end), pat) == k,
    decreases end - k,
{
    let s = args.subrange(0, end);
    if end - 1 > k {
        assert(s.drop_last() =~= args.subrange(0, end - 1));
        lemma_last_start_at(args, pat, end - 1, k);
    }
}

proof fn lemma_last_start_none(args: Seq<Arg>, pat: Seq<&str>, end: int)
    requires
        0 <= end <= args.len(),
        forall|j: int| 0 <= j < end ==> !is_pat(pat, #[trigger] args[j].text@),
    ensures
        last_start(args.subrange(0, end), pat) == 0,
    decreases end,
{
    let s = args.subrange(0, end);
    if end > 0 {
        assert(s.drop_last() =~= args.subrange(0, end - 1));
        lemma_last_start_none(args, pat, end - 1);
    }
}

/// Where the last object of `args[..end]` begins.
fn find_start(args: &Vec<Arg>, pat: &[&str], end: usize) -> (start: usize)
    requires
        0 < end <= args@.len(),
    ensures
        start as int == last_start(args@.subrange(0, end as int), pat@),
        start < end,
{
    let mut k = end;
    while k > 0
        invariant
            k <= end <= args@.len(),
            forall|j: int| k <= j < end ==> !is_pat(pat@, #[trigger] args@[j].text@),
        decreases k,
    {
        k = k - 1;
        if word_in(pat, &args[k].text) {
            proof {
                lemma_last_start_at(args@, pat@, end as int, k as int);
            }
            return k;
        }
    }
    proof {
        lemma_last_start_none(args@, pat@, end as int);
    }
    0
}

/// The words `args[start..end]`.
fn words(args: &Vec<Arg>, start: usize, end: usize) -> (r: Vec<Arg>)
    requires
        start <= end <= args@.len(),
    ensures
        r@ == args@.subrange(start as int, end as int),
{
    let mut r: Vec<Arg> = Vec::new();
    let mut k = start;
    while k < end
        invariant
            start <= k <= end <= args@.len(),
            r@ == args@.subrange(start as int, k as int),
        decreases end - k,
    {
        r.push(args[k].copied());
        k = k + 1;
        assert(r@ =~= args@.subrange(start as int, k as int));
    }
    r
}

/// Reading several objects of one sort from a single word list.
pub trait ParseFromArgs<T: FromArgs> {
    /// Splits the words before every type word in `pat` and reads each part
    /// as an object, the last part first; the list holds the objects in that
    /// order, or the first error.
    fn parse_args(args: &Vec<Arg>, pat: &[&str]) -> (r: Result<Vec<T>, String>)
        ensures
            res_vec_view(r) == parse_objects::<T>(args@, pat@),
    {
        let mut out: Vec<T> = Vec::new();
        let mut end = args.len();
        assert(args@.subrange(0, end as int) =~= args@);
        while end > 0
            invariant
                end <= args@.len(),
                match parse_objects::<T>(args@.subrange(0, end as int), pat@) {
                    Ok(vs) => parse_objects::<T>(args@, pat@) == Ok::<Seq<<T as View>::V>, Seq<char>>(
                        vec_view(out@) + vs,
                    ),
                    Err(e) => parse_objects::<T>(args@, pat@) == Err::<
                        Seq<<T as View>::V>,
                        Seq<char>,
                    >(e),
                },
            decreases end,
        {
            let start = find_start(args, pat, end);
            let part = words(args, start, end);
            let ghost prefix = args@.subrange(0, end as int);
            assert(prefix.subrange(start as int, prefix.len() as int) =~= part@);
            assert(prefix.subrange(0, start as int) =~= args@.subrange(0, start as int));
            proof {
                T::lemma_nonempty_accepted(part@);
            }
            let v = T::from_args(&part)?;
            let ghost before = out@;
            out.push(v);
            assert(vec_view(out@) =~= vec_view(before) + seq![v@]);
            proof {
                match parse_objects::<T>(args@.subrange(0, start as int), pat@) {
                    Ok(vs) => {
                        assert(vec_view(before) + (seq![v@] + vs) =~= vec_view(out@) + vs);
                    },
                    Err(_) => {},
                }
            }
            end = start;
        }
        assert(args@.subrange(0, 0) =~= Seq::<Arg>::empty());
        assert(vec_view(out@) + Seq::<<T as View>::V>::empty() =~= vec_view(out@));
        Ok(out)
    }
}

impl ParseFromArgs<RendererWrapper> for SceneWrapper {
}

impl ParseFromArgs<LightWrapper> for SceneWrapper {
}

} // verus!
