//! Derivation of an image's lookup name from its source path.
use vstd::prelude::*;
use vstd::string::StringSliceAdditionalSpecFns;
use vstd::utf8::*;

verus! {

/// Byte of the path separator `/`.
pub const SLASH: u8 = 47;

/// Byte of the extension separator `.`.
pub const DOT: u8 = 46;

/// Index where the final path component starts: just after the last `/` among
/// the first `i` bytes, or 0 if there is none.
pub open spec fn component_start(b: Seq<u8>, i: int) -> int
    decreases i,
{
    if i <= 0 {
        0
    } else if b[i - 1] == SLASH {
        i
    } else {
        component_start(b, i - 1)
    }
}

/// Index of the last `.` among the bytes in `[start, i)`, or -1 if there is none.
pub open spec fn last_dot(b: Seq<u8>, start: int, i: int) -> int
    decreases i - start,
{
    if i <= start {
        -1
    } else if b[i - 1] == DOT {
        i - 1
    } else {
        last_dot(b, start, i - 1)
    }
}

/// The name of a path: its final component with the last extension removed.
/// A component whose only `.` is its first byte keeps it (`.hidden`).
pub open spec fn name_bytes(b: Seq<u8>) -> Seq<u8> {
    let s = component_start(b, b.len() as int);
    let d = last_dot(b, s, b.len() as int);
    if d > s {
        b.subrange(s, d)
    } else {
        b.subrange(s, b.len() as int)
    }
}

proof fn lemma_component_start_bounds(b: Seq<u8>, i: int)
    requires
        0 <= i <= b.len(),
    ensures
        0 <= component_start(b, i) <= i,
        component_start(b, i) > 0 ==> b[component_start(b, i) - 1] == SLASH,
        forall|k: int| component_start(b, i) <= k < i ==> b[k] != SLASH,
    decreases i,
{
    if i > 0 && b[i - 1] != SLASH {
        lemma_component_start_bounds(b, i - 1);
    }
}

proof fn lemma_last_dot_bounds(b: Seq<u8>, start: int, i: int)
    requires
        0 <= start <= i <= b.len(),
    ensures
        last_dot(b, start, i) == -1 || (start <= last_dot(b, start, i) < i && b[last_dot(
            b,
            start,
            i,
        )] == DOT),
        forall|k: int| last_dot(b, start, i) < k < i && start <= k ==> b[k] != DOT,
    decreases i - start,
{
    if i > start && b[i - 1] != DOT {
        lemma_last_dot_bounds(b, start, i - 1);
    }
}

/// In valid UTF-8, the position right after an ASCII byte is a character boundary.
proof fn lemma_boundary_after_ascii(b: Seq<u8>, i: int)
    requires
        valid_utf8(b),
        0 <= i < b.len(),
        b[i] < 0x80,
    ensures
        is_char_boundary(b, i + 1),
{
    broadcast use is_char_boundary_iff_not_is_continuation_byte, is_char_boundary_start_end_of_seq;

    assert(!is_continuation_byte(b[i]));
    assert(is_char_boundary(b, i));
    valid_utf8_split(b, i);
    let s = b.subrange(i, b.len() as int);
    assert(valid_utf8(s));
    assert(s[0] == b[i]);
    assert(length_of_first_scalar(s) == 1);
    assert(valid_utf8(pop_first_scalar(s)));
    let t = pop_first_scalar(s);
    if i + 1 < b.len() {
        assert(t =~= b.subrange(i + 1, b.len() as int));
        assert(t[0] == b[i + 1]);
        assert(valid_first_scalar(t));
        assert(!is_continuation_byte(b[i + 1]));
    }
}

/// The name of `dir/stem.ext` is `stem`, whatever the directories before it:
/// only the last extension goes, so `a.b.png` is named `a.b`.
pub proof fn name_strips_directories_and_last_extension(
    dir: Seq<u8>,
    stem: Seq<u8>,
    ext: Seq<u8>,
)
    requires
        dir.len() == 0 || dir.last() == SLASH,
        stem.len() > 0,
        forall|k: int| 0 <= k < stem.len() ==> stem[k] != SLASH,
        forall|k: int| 0 <= k < ext.len() ==> ext[k] != SLASH && ext[k] != DOT,
    ensures
        name_bytes(dir + stem + seq![DOT] + ext) == stem,
{
    let b = dir + stem + seq![DOT] + ext;
    let n = b.len() as int;
    let dl = dir.len() as int;
    let dot = dl + stem.len();
    assert(b[dot] == DOT);
    assert forall|k: int| dl <= k < n implies b[k] != SLASH by {
        if k < dot {
            assert(b[k] == stem[k - dl]);
        } else if k > dot {
            assert(b[k] == ext[k - dot - 1]);
        }
    }
    if dl > 0 {
        assert(b[dl - 1] == dir.last());
    }
    lemma_component_start_bounds(b, n);
    let s = component_start(b, n);
    if s < dl {
        assert(b[dl - 1] == SLASH);
    }
    assert(s == dl);
    lemma_last_dot_bounds(b, s, n);
    let d = last_dot(b, s, n);
    assert forall|k: int| dot < k < n implies b[k] != DOT by {
        assert(b[k] == ext[k - dot - 1]);
    }
    assert(d == dot);
    assert(b.subrange(s, d) =~= stem);
}

/// The name of a path, as characters.
pub open spec fn name_of(path: Seq<char>) -> Seq<char> {
    decode_utf8(name_bytes(encode_utf8(path)))
}

/// The lookup name of the image at `path`: the final component of the path,
/// without the directories before it and without its last extension.
pub fn image_name(path: &str) -> (r: String)
    ensures
        encode_utf8(r@) == name_bytes(encode_utf8(path@)),
        r@ == name_of(path@),
{
    let bytes = path.as_bytes();
    let len = bytes.len();
    proof {
        assert(bytes@ == encode_utf8(path@));
    }
    let mut s: usize = len;
    while s > 0 && bytes[s - 1] != SLASH
        invariant
            s <= len,
            len == bytes@.len(),
            component_start(bytes@, len as int) == component_start(bytes@, s as int),
        decreases s,
    {
        s = s - 1;
    }
    let mut i: usize = len;
    let mut d: usize = s;
    let mut found = false;
    while i > s && !found
        invariant
            s <= i <= len,
            len == bytes@.len(),
            found ==> s <= d < len && last_dot(bytes@, s as int, len as int) == d,
            !found ==> last_dot(bytes@, s as int, len as int) == last_dot(bytes@, s as int, i as int),
        decreases i - s,
    {
        if bytes[i - 1] == DOT {
            d = i - 1;
            found = true;
            i = s;
        } else {
            i = i - 1;
        }
    }
    proof {
        lemma_component_start_bounds(bytes@, len as int);
        encode_utf8_valid_utf8(path@);
        if s > 0 {
            lemma_boundary_after_ascii(bytes@, s - 1);
        } else {
            is_char_boundary_start_end_of_seq(bytes@);
        }
    }
    let end: usize = if found && d > s { d } else { len };
    let (_dirs, rest) = path.split_at(s);
    proof {
        valid_utf8_split(bytes@, s as int);
        lemma_last_dot_bounds(bytes@, s as int, len as int);
        let rb = rest.spec_bytes();
        assert(rb =~= bytes@.subrange(s as int, len as int));
        if found && d > s {
            broadcast use is_char_boundary_iff_not_is_continuation_byte;
            assert(valid_utf8(bytes@.subrange(s as int, len as int)));
            assert(valid_utf8(rb));
            assert(rb[d - s] == DOT);
            assert(!is_continuation_byte(rb[d - s]));
            assert(is_char_boundary(rb, (end - s) as int));
        } else {
            is_char_boundary_start_end_of_seq(rb);
        }
    }
    let (stem, _ext) = rest.split_at(end - s);
    let r = stem.to_owned();
    proof {
        assert(stem.spec_bytes() =~= bytes@.subrange(s as int, end as int));
        if !found {
            assert(last_dot(bytes@, s as int, len as int) == -1);
        }
        encode_utf8_decode_utf8(r@);
    }
    r
}

} // verus!
