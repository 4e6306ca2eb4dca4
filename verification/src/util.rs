//! Byte-bounded cuts of text, and paths.

use vstd::prelude::*;
use vstd::utf8::*;
use crate::text;
use crate::text::Cut;

verus! {

/// The first character boundary at or after `i`.
pub open spec fn next_boundary(b: Seq<u8>, i: int) -> int
    decreases b.len() - i,
{
    if i >= b.len() || is_char_boundary(b, i) {
        i
    } else {
        next_boundary(b, i + 1)
    }
}

/// Where the last `max` bytes of `b` begin, moved forward to a character
/// boundary.
pub open spec fn tail_start(b: Seq<u8>, max: int) -> int {
    if b.len() <= max { 0 } else { next_boundary(b, b.len() - max) }
}

/// The end of a text: what stands from `tail_start` on.
pub open spec fn tail_text(s: Seq<char>, max: int) -> Seq<char> {
    let b = encode_utf8(s);
    decode_utf8(b.subrange(tail_start(b, max), b.len() as int))
}

proof fn lemma_next_boundary(b: Seq<u8>, i: int)
    requires
        valid_utf8(b),
        0 <= i <= b.len(),
    ensures
        i <= next_boundary(b, i) <= b.len(),
        is_char_boundary(b, next_boundary(b, i)),
    decreases b.len() - i,
{
    is_char_boundary_start_end_of_seq(b);
    if i < b.len() && !is_char_boundary(b, i) {
        lemma_next_boundary(b, i + 1);
    }
}

/// Last `max_bytes` of `s`, moved forward to a character boundary.
pub fn tail(s: &str, max_bytes: usize) -> (r: &str)
    ensures
        r@ == tail_text(s@, max_bytes as int),
{
    let ghost b = encode_utf8(s@);
    let n: usize = s.as_bytes().len();
    proof {
        encode_utf8_valid_utf8(s@);
        is_char_boundary_start_end_of_seq(b);
    }
    let mut at: usize = if n <= max_bytes { 0 } else { n - max_bytes };
    if n > max_bytes {
        proof {
            lemma_next_boundary(b, at as int);
        }
        while !s.is_char_boundary(at)
            invariant
                b == encode_utf8(s@),
                valid_utf8(b),
                b.len() == n,
                at <= n,
                is_char_boundary(b, n as int),
                next_boundary(b, n - max_bytes) == next_boundary(b, at as int),
            decreases n - at,
        {
            at = at + 1;
        }
    }
    let (_, end) = s.split_at(at);
    proof {
        encode_utf8_decode_utf8(end@);
    }
    end
}

/// The tail is the end of the text, and at most `max` bytes long.
pub proof fn law_tail_is_bounded_suffix(s: Seq<char>, max: nat)
    ensures
        tail_text(s, max as int).is_suffix_of(s),
        encode_utf8(tail_text(s, max as int)).len() <= max,
        encode_utf8(s).len() <= max ==> tail_text(s, max as int) == s,
{
    let b = encode_utf8(s);
    encode_utf8_valid_utf8(s);
    encode_utf8_decode_utf8(s);
    is_char_boundary_start_end_of_seq(b);
    if b.len() > max {
        lemma_next_boundary(b, b.len() - max);
    }
    let at = tail_start(b, max as int);
    valid_utf8_split(b, at);
    decode_utf8_split(b, at);
    let end = b.subrange(at, b.len() as int);
    decode_utf8_encode_utf8(end);
    let head = decode_utf8(b.subrange(0, at));
    assert(s =~= head + tail_text(s, max as int));
    assert(s.subrange(s.len() - tail_text(s, max as int).len(), s.len() as int) =~= tail_text(
        s,
        max as int,
    ));
    if b.len() <= max {
        assert(end =~= b);
    }
}

/// The least of two integers.
pub open spec fn min_int(a: int, b: int) -> int {
    if a <= b { a } else { b }
}

/// The first `n` bytes of a text, or all of it where it is shorter.
pub open spec fn head_text(s: Seq<char>, n: int) -> Seq<char> {
    let b = encode_utf8(s);
    decode_utf8(b.subrange(0, min_int(n, b.len() as int)))
}

/// Whether a text can be cut after `n` bytes without breaking a character.
pub open spec fn head_cuts(s: Seq<char>, n: int) -> bool {
    let b = encode_utf8(s);
    is_char_boundary(b, min_int(n, b.len() as int))
}

/// Whether `s` can be cut after `n` bytes.
pub fn can_cut(s: &str, n: usize) -> (r: bool)
    ensures
        r == head_cuts(s@, n as int),
{
    let len: usize = s.as_bytes().len();
    let at: usize = if n < len { n } else { len };
    s.is_char_boundary(at)
}

/// First `n` bytes of `s`, or all of it where it is shorter.
pub fn head(s: &str, n: usize) -> (r: &str)
    requires
        head_cuts(s@, n as int),
    ensures
        r@ == head_text(s@, n as int),
{
    let len: usize = s.as_bytes().len();
    let at: usize = if n < len { n } else { len };
    let (start, _) = s.split_at(at);
    proof {
        encode_utf8_decode_utf8(start@);
    }
    start
}

/// A text of ASCII characters can be cut anywhere, and its first `n` bytes
/// are its first `n` characters.
pub proof fn law_head_of_ascii(s: Seq<char>, n: nat)
    requires
        is_ascii_chars(s),
    ensures
        head_cuts(s, n as int),
        head_text(s, n as int) == text::first_chars(s, n as int),
{
    let b = encode_utf8(s);
    is_ascii_chars_encode_utf8(s);
    encode_utf8_valid_utf8(s);
    is_char_boundary_start_end_of_seq(b);
    let at = min_int(n as int, b.len() as int);
    if at < b.len() {
        is_char_boundary_iff_is_leading_byte(b, at);
        is_ascii_chars_nat_bound(s);
        assert(is_leading_byte_width_1(b[at]));
    }
    let h = s.take(at);
    is_ascii_chars_encode_utf8(h);
    assert(encode_utf8(h) =~= b.subrange(0, at));
    encode_utf8_decode_utf8(h);
    assert(s.take(s.len() as int) =~= s);
}

// ---------------------------------------------------------------------
// Paths
// ---------------------------------------------------------------------

/// `base` and the relative `name` as one path.
pub open spec fn path_join(base: Seq<char>, name: Seq<char>) -> Seq<char> {
    if base.len() == 0 || base.last() == '/' {
        base + name
    } else {
        base + seq!['/'] + name
    }
}

/// Join a directory and a relative name.
pub fn join_path(base: &str, name: &str) -> (r: String)
    ensures
        r@ == path_join(base@, name@),
{
    let n: usize = base.unicode_len();
    let mut out: String = base.to_owned();
    if n > 0 && base.get_char(n - 1) != '/' {
        out.push('/');
    }
    out.append(name);
    assert(out@ =~= path_join(base@, name@));
    out
}

/// The components of a path: the root where it is absolute, a leading dot,
/// and the names between slashes; empty names and other dots say nothing.
pub open spec fn path_parts(p: Seq<char>) -> Seq<Seq<char>> {
    let pieces = text::split(p, Cut::At('/'));
    let start = if p.len() > 0 && p[0] == '/' {
        seq!["/"@]
    } else if pieces[0] == "."@ {
        seq!["."@]
    } else {
        Seq::empty()
    };
    start + pieces.filter(|n: Seq<char>| n.len() > 0 && n != "."@)
}

/// Whether a path lies under a directory, or is that directory.
pub open spec fn path_under(p: Seq<char>, dir: Seq<char>) -> bool {
    path_parts(dir).is_prefix_of(path_parts(p))
}

/// The components of a joined path are those of the directory, and the name.
pub proof fn lemma_joined_parts(base: Seq<char>, name: Seq<char>)
    requires
        base.len() > 0,
        base.last() != '/',
        name.len() > 0,
        name != "."@,
        !text::holds_char(name, '/'),
    ensures
        path_parts(path_join(base, name)) == path_parts(base).push(name),
{
    let p = path_join(base, name);
    let keep = |n: Seq<char>| n.len() > 0 && n != "."@;
    let pieces = text::split(base, Cut::At('/'));
    text::lemma_split_at(base, '/', name);
    text::lemma_split_len(base, Cut::At('/'));
    assert(p[0] == base[0]);
    reveal(Seq::filter);
    assert(pieces.push(name).drop_last() =~= pieces);
    assert(pieces.push(name).filter(keep) == pieces.filter(keep).push(name));
    assert(path_parts(p) =~= path_parts(base).push(name));
}

fn named(pieces: &Vec<String>, start: Vec<String>) -> (r: Vec<String>)
    ensures
        text::texts(r@) == text::texts(start@) + text::texts(pieces@).filter(
            |n: Seq<char>| n.len() > 0 && n != "."@,
        ),
{
    let ghost all = text::texts(pieces@);
    let ghost first = text::texts(start@);
    let ghost keep = |n: Seq<char>| n.len() > 0 && n != "."@;
    let mut out = start;
    let mut i: usize = 0;
    proof {
        reveal(Seq::filter);
        assert(all.take(0).filter(keep) =~= Seq::<Seq<char>>::empty());
        assert(text::texts(out@) =~= first + all.take(0).filter(keep));
    }
    while i < pieces.len()
        invariant
            i <= pieces@.len(),
            all == text::texts(pieces@),
            keep == (|n: Seq<char>| n.len() > 0 && n != "."@),
            text::texts(out@) == first + all.take(i as int).filter(keep),
        decreases pieces@.len() - i,
    {
        proof {
            reveal(Seq::filter);
            assert(all.take(i + 1).drop_last() =~= all.take(i as int));
            assert(all.take(i + 1).last() == pieces@[i as int]@);
        }
        let ghost prev = text::texts(out@);
        if !pieces[i].as_str().is_empty() && !text::same(&pieces[i], ".") {
            text::add_text(&mut out, &pieces[i]);
            assert(text::texts(out@) =~= first + all.take(i + 1).filter(keep));
        }
        i = i + 1;
    }
    assert(all.take(pieces@.len() as int) =~= all);
    out
}

fn parts_of(p: &str) -> (r: Vec<String>)
    ensures
        text::texts(r@) == path_parts(p@),
{
    let pieces = text::split_text(p, Cut::At('/'));
    assert(text::texts(pieces@)[0] == pieces@[0]@);
    let mut start = text::no_texts();
    let n: usize = p.unicode_len();
    if n > 0 && p.get_char(0) == '/' {
        text::add_text(&mut start, "/");
    } else if text::same(&pieces[0], ".") {
        text::add_text(&mut start, ".");
    }
    let r = named(&pieces, start);
    assert(text::texts(r@) =~= path_parts(p@));
    r
}

/// Whether `p` lies under `dir`, by whole components.
pub fn path_starts_with(p: &str, dir: &str) -> (r: bool)
    ensures
        r == path_under(p@, dir@),
{
    let a = parts_of(p);
    let b = parts_of(dir);
    let ghost ta = path_parts(p@);
    let ghost tb = path_parts(dir@);
    if b.len() > a.len() {
        return false;
    }
    let mut i: usize = 0;
    while i < b.len()
        invariant
            i <= b@.len() <= a@.len(),
            ta == text::texts(a@),
            tb == text::texts(b@),
            ta == path_parts(p@),
            tb == path_parts(dir@),
            forall|k: int| 0 <= k < i ==> ta[k] == tb[k],
        decreases b@.len() - i,
    {
        assert(ta[i as int] == a@[i as int]@ && tb[i as int] == b@[i as int]@);
        if !text::same(&a[i], &b[i]) {
            assert(ta.take(tb.len() as int)[i as int] == ta[i as int]);
            return false;
        }
        i = i + 1;
    }
    assert(ta.take(tb.len() as int) =~= tb);
    true
}

} // verus!
