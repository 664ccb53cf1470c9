//! File names and paths: where each output file goes.
use vstd::prelude::*;

verus! {

/// The byte `.`, which separates a file name's stem from its extension.
pub const DOT: u8 = 46;

/// The byte `/`, the path separator.
pub const SLASH: u8 = 47;

/// The position of the last `.` in `name`, if it holds one.
pub open spec fn last_dot(name: Seq<u8>) -> Option<int>
    decreases name.len(),
{
    if name.len() == 0 {
        None
    } else if name.last() == DOT {
        Some(name.len() - 1)
    } else {
        last_dot(name.drop_last())
    }
}

/// The stem of a file name: the name up to its last `.`, or the whole name
/// where it has no `.`, where its only `.` is the leading one, or where it is `..`.
pub open spec fn stem(name: Seq<u8>) -> Seq<u8> {
    match last_dot(name) {
        Some(i) => if i > 0 && name != seq![DOT, DOT] {
            name.take(i)
        } else {
            name
        },
        None => name,
    }
}

/// The extension that every output file gets: `.jpg`.
pub open spec fn jpg_suffix() -> Seq<u8> {
    seq![DOT, 106u8, 112u8, 103u8]
}

/// The name of the output file written for the input file `name`.
pub open spec fn output_name(name: Seq<u8>) -> Seq<u8> {
    stem(name) + jpg_suffix()
}

/// `name` appended to the directory `dir`, with one separator between them;
/// a name that starts at the root stands for itself.
pub open spec fn joined(dir: Seq<u8>, name: Seq<u8>) -> Seq<u8> {
    if name.len() > 0 && name[0] == SLASH {
        name
    } else if dir.len() > 0 && dir.last() != SLASH {
        dir + seq![SLASH] + name
    } else {
        dir + name
    }
}

proof fn lemma_last_dot_in_range(name: Seq<u8>)
    ensures
        last_dot(name) matches Some(i) ==> 0 <= i < name.len() && name[i] == DOT,
    decreases name.len(),
{
    if name.len() > 0 && name.last() != DOT {
        lemma_last_dot_in_range(name.drop_last());
    }
}

proof fn lemma_last_dot_of_take(name: Seq<u8>, i: int)
    requires
        0 < i <= name.len(),
        name[i - 1] != DOT,
    ensures
        last_dot(name.take(i)) == last_dot(name.take(i - 1)),
{
    assert(name.take(i).drop_last() =~= name.take(i - 1));
}

proof fn lemma_last_dot_without_dots(a: Seq<u8>, b: Seq<u8>)
    requires
        forall|k: int| 0 <= k < b.len() ==> b[k] != DOT,
    ensures
        last_dot(a + b) == last_dot(a),
    decreases b.len(),
{
    if b.len() > 0 {
        assert((a + b).drop_last() =~= a + b.drop_last());
        lemma_last_dot_without_dots(a, b.drop_last());
    } else {
        assert(a + b =~= a);
    }
}

/// The output name is the input name with its extension replaced by `.jpg`:
/// for a name `stem.ext` whose extension holds no `.`, it is `stem.jpg`,
/// whatever the extension was.
pub proof fn lemma_output_name_replaces_extension(base: Seq<u8>, ext: Seq<u8>)
    requires
        base.len() > 1 || (base.len() == 1 && base[0] != DOT),
        forall|k: int| 0 <= k < ext.len() ==> ext[k] != DOT,
    ensures
        output_name(base + seq![DOT] + ext) == base + jpg_suffix(),
{
    let name = base + seq![DOT] + ext;
    lemma_last_dot_without_dots(base + seq![DOT], ext);
    assert((base + seq![DOT]).drop_last() =~= base);
    assert(last_dot(base + seq![DOT]) == Some(base.len() as int));
    if name =~= seq![DOT, DOT] {
        assert(name.len() == 2);
        assert(base[0] == name[0]);
    }
    assert(name.take(base.len() as int) =~= base);
}

/// A name without any `.` keeps all of itself and gains `.jpg`.
pub proof fn lemma_output_name_adds_extension(name: Seq<u8>)
    requires
        forall|k: int| 0 <= k < name.len() ==> name[k] != DOT,
    ensures
        output_name(name) == name + jpg_suffix(),
{
    lemma_last_dot_without_dots(Seq::empty(), name);
    assert(Seq::<u8>::empty() + name =~= name);
}

/// The position of the last `.` in `name`.
pub fn find_last_dot(name: &[u8]) -> (r: Option<usize>)
    ensures
        r matches Some(i) ==> last_dot(name@) == Some(i as int),
        r is None ==> last_dot(name@) is None,
{
    let mut i: usize = name.len();
    assert(name@.take(i as int) =~= name@);
    while i > 0
        invariant
            i <= name@.len(),
            last_dot(name@) == last_dot(name@.take(i as int)),
        decreases i,
    {
        if name[i - 1] == DOT {
            assert(name@.take(i as int).last() == DOT);
            return Some(i - 1);
        }
        proof {
            lemma_last_dot_of_take(name@, i as int);
        }
        i = i - 1;
    }
    None
}

/// The name of the `.jpg` file written for the input file `name`: its stem, as
/// `Path::set_extension` sees it, followed by `.jpg`.
pub fn output_file_name(name: &[u8]) -> (r: Vec<u8>)
    ensures
        r@ == output_name(name@),
{
    let dot = find_last_dot(name);
    proof {
        lemma_last_dot_in_range(name@);
    }
    let is_dot_dot = name.len() == 2 && name[0] == DOT && name[1] == DOT;
    proof {
        if is_dot_dot {
            assert(name@ =~= seq![DOT, DOT]);
        } else if name@ == seq![DOT, DOT] {
            assert(name@[0] == DOT && name@[1] == DOT);
        }
    }
    let end: usize = match dot {
        Some(i) => if i > 0 && !is_dot_dot {
            i
        } else {
            name.len()
        },
        None => name.len(),
    };
    let mut r: Vec<u8> = Vec::new();
    let mut k: usize = 0;
    while k < end
        invariant
            end <= name@.len(),
            k <= end,
            r@ == name@.take(k as int),
        decreases end - k,
    {
        r.push(name[k]);
        k = k + 1;
        assert(r@ =~= name@.take(k as int));
    }
    assert(name@.take(name@.len() as int) =~= name@);
    r.push(DOT);
    r.push(106u8);
    r.push(112u8);
    r.push(103u8);
    assert(r@ =~= output_name(name@));
    r
}

/// Appends `src` to `dst`.
fn append_bytes(dst: &mut Vec<u8>, src: &[u8])
    ensures
        final(dst)@ == old(dst)@ + src@,
{
    let mut k: usize = 0;
    while k < src.len()
        invariant
            k <= src@.len(),
            dst@ == old(dst)@ + src@.take(k as int),
        decreases src@.len() - k,
    {
        dst.push(src[k]);
        k = k + 1;
        assert(dst@ =~= old(dst)@ + src@.take(k as int));
    }
    assert(src@.take(src@.len() as int) =~= src@);
}

/// The path of `name` inside `dir`, as `PathBuf::push` forms it.
pub fn join_path(dir: &[u8], name: &[u8]) -> (r: Vec<u8>)
    ensures
        r@ == joined(dir@, name@),
{
    let mut r: Vec<u8> = Vec::new();
    if name.len() > 0 && name[0] == SLASH {
        append_bytes(&mut r, name);
        assert(r@ =~= name@);
        return r;
    }
    append_bytes(&mut r, dir);
    if dir.len() > 0 && dir[dir.len() - 1] != SLASH {
        r.push(SLASH);
    }
    append_bytes(&mut r, name);
    assert(r@ =~= joined(dir@, name@));
    r
}

} // verus!
