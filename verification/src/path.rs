//! Path names as the bytes that a Unix system keeps them in.

use crate::gather::{gathered, lemma_gathered_add, lemma_gathered_step};
use crate::text::{lemma_pieces_join, lemma_span_is, other_than, pieces_of, span};
use vstd::prelude::*;
use vstd::slice::{slice_subrange, slice_to_vec};
use vstd::utf8::encode_utf8;

verus! {

/// The byte between the components of a path, `/`.
pub const SEPARATOR: u8 = 0x2f;

/// The byte `.`.
pub const DOT: u8 = 0x2e;

/// The bytes of each of a sequence of byte strings.
pub open spec fn byte_strings(v: Seq<Vec<u8>>) -> Seq<Seq<u8>> {
    v.map_values(|b: Vec<u8>| b@)
}

/// The component that a piece of a path stands for, if it stands for one: an
/// empty piece and a single dot do not.
pub open spec fn named_part() -> spec_fn(Seq<u8>) -> Seq<Seq<u8>> {
    |piece: Seq<u8>|
        if piece.len() == 0 || piece == seq![DOT] {
            Seq::empty()
        } else {
            seq![piece]
        }
}

/// What stands in front of the named components: the root, written as a lone
/// separator, or a dot with which a relative path begins.
pub open spec fn leading_part(p: Seq<u8>) -> Seq<Seq<u8>> {
    if p.len() > 0 && p[0] == SEPARATOR {
        seq![seq![SEPARATOR]]
    } else if pieces_of(p, SEPARATOR)[0] == seq![DOT] {
        seq![seq![DOT]]
    } else {
        Seq::empty()
    }
}

/// The components of a path. Repeated and trailing separators do not count,
/// nor does a dot anywhere but at the beginning.
pub open spec fn parts_of(p: Seq<u8>) -> Seq<Seq<u8>> {
    leading_part(p) + gathered(pieces_of(p, SEPARATOR), named_part())
}

/// `base` is `p`, or a directory above `p`, component by component.
pub open spec fn within(p: Seq<u8>, base: Seq<u8>) -> bool {
    parts_of(base).is_prefix_of(parts_of(p))
}

/// `a` and `b` have the same components.
pub open spec fn same_path(a: Seq<u8>, b: Seq<u8>) -> bool {
    parts_of(a) == parts_of(b)
}

/// The path `rest`, seen from `base`.
pub open spec fn path_joined(base: Seq<u8>, rest: Seq<u8>) -> Seq<u8> {
    if rest.len() > 0 && rest[0] == SEPARATOR {
        rest
    } else if base.len() == 0 || base.last() == SEPARATOR {
        base + rest
    } else {
        base.push(SEPARATOR) + rest
    }
}

/// The last component of a path, if it is a name.
pub open spec fn file_name_of(p: Seq<u8>) -> Option<Seq<u8>> {
    let parts = parts_of(p);
    if parts.len() > 0 && parts.last() != seq![SEPARATOR] && parts.last() != seq![DOT]
        && parts.last() != seq![DOT, DOT] {
        Some(parts.last())
    } else {
        None
    }
}

/// The first position at or after `from` that holds a separator, or the end.
fn separator_position(p: &[u8], from: usize) -> (r: usize)
    requires
        from <= p@.len(),
    ensures
        from <= r <= p@.len(),
        r - from == span(p@.skip(from as int), other_than(SEPARATOR)),
        r < p@.len() ==> p@[r as int] == SEPARATOR,
{
    let mut i: usize = from;
    while i < p.len() && p[i] != SEPARATOR
        invariant
            from <= i <= p@.len(),
            forall|k: int| from <= k < i ==> p@[k] != SEPARATOR,
        decreases p@.len() - i,
    {
        i += 1;
    }
    proof {
        let t = p@.skip(from as int);
        assert forall|k: int| 0 <= k < i - from implies other_than(SEPARATOR)(#[trigger] t[k]) by {
            assert(t[k] == p@[from + k]);
        }
        lemma_span_is(t, other_than(SEPARATOR), (i - from) as nat);
    }
    i
}

/// The pieces of `p` between separators.
fn path_pieces(p: &[u8]) -> (r: Vec<Vec<u8>>)
    ensures
        byte_strings(r@) == pieces_of(p@, SEPARATOR),
{
    let mut r: Vec<Vec<u8>> = Vec::new();
    let mut i: usize = 0;
    assert(p@.skip(0) =~= p@);
    assert(byte_strings(r@) =~= Seq::empty());
    let mut j: usize = separator_position(p, 0);
    assert(byte_strings(r@) + pieces_of(p@, SEPARATOR) =~= pieces_of(p@, SEPARATOR));
    while j < p.len()
        invariant
            i <= j <= p@.len(),
            j - i == span(p@.skip(i as int), other_than(SEPARATOR)),
            pieces_of(p@, SEPARATOR) == byte_strings(r@) + pieces_of(p@.skip(i as int), SEPARATOR),
        decreases p@.len() - j,
    {
        let ghost rest = p@.skip(i as int);
        let ghost before = r@;
        let piece: Vec<u8> = slice_to_vec(slice_subrange(p, i, j));
        assert(piece@ =~= rest.take(j - i));
        r.push(piece);
        assert(byte_strings(r@) =~= byte_strings(before).push(piece@));
        assert(rest.skip(j - i + 1) =~= p@.skip(j + 1));
        assert(pieces_of(p@, SEPARATOR) =~= byte_strings(r@) + pieces_of(p@.skip(j + 1), SEPARATOR));
        i = j + 1;
        j = separator_position(p, i);
    }
    let ghost before = r@;
    let piece: Vec<u8> = slice_to_vec(slice_subrange(p, i, j));
    assert(piece@ =~= p@.skip(i as int));
    r.push(piece);
    assert(byte_strings(r@) =~= byte_strings(before).push(piece@));
    assert(pieces_of(p@, SEPARATOR) =~= byte_strings(r@));
    r
}

fn is_dot(piece: &Vec<u8>) -> (r: bool)
    ensures
        r == (piece@ == seq![DOT]),
{
    let r = piece.len() == 1 && piece[0] == DOT;
    assert(r ==> piece@ =~= seq![DOT]);
    r
}

/// The components of a path.
pub fn parts(p: &[u8]) -> (r: Vec<Vec<u8>>)
    ensures
        byte_strings(r@) == parts_of(p@),
{
    let pieces: Vec<Vec<u8>> = path_pieces(p);
    let ghost all = byte_strings(pieces@);
    let mut r: Vec<Vec<u8>> = Vec::new();
    assert(pieces@.len() == all.len());
    if p.len() > 0 && p[0] == SEPARATOR {
        let root: Vec<u8> = vec![SEPARATOR];
        assert(root@ =~= seq![SEPARATOR]);
        r.push(root);
    } else {
        assert(all[0] == pieces@[0]@);
        if is_dot(&pieces[0]) {
            let dot: Vec<u8> = vec![DOT];
            assert(dot@ =~= seq![DOT]);
            r.push(dot);
        }
    }
    assert(byte_strings(r@) =~= leading_part(p@));
    let mut i: usize = 0;
    assert(gathered(all.take(0), named_part()) =~= Seq::empty());
    while i < pieces.len()
        invariant
            all == byte_strings(pieces@),
            all == pieces_of(p@, SEPARATOR),
            i <= pieces@.len(),
            byte_strings(r@) == leading_part(p@) + gathered(all.take(i as int), named_part()),
        decreases pieces@.len() - i,
    {
        proof {
            lemma_gathered_step(all, named_part(), i as int);
            assert(all[i as int] == pieces@[i as int]@);
        }
        let ghost before = r@;
        if pieces[i].len() > 0 && !is_dot(&pieces[i]) {
            let piece: Vec<u8> = slice_to_vec(pieces[i].as_slice());
            r.push(piece);
            assert(byte_strings(r@) =~= byte_strings(before).push(all[i as int]));
        }
        assert(byte_strings(r@) =~= leading_part(p@) + gathered(all.take(i + 1), named_part()));
        i += 1;
    }
    assert(all.take(i as int) =~= all);
    r
}

/// Do the first `n` components of `a` and `b` agree?
fn agree(a: &Vec<Vec<u8>>, b: &Vec<Vec<u8>>, n: usize) -> (r: bool)
    requires
        n <= a@.len(),
        n <= b@.len(),
    ensures
        r == (byte_strings(a@).take(n as int) == byte_strings(b@).take(n as int)),
{
    let ghost x = byte_strings(a@).take(n as int);
    let ghost y = byte_strings(b@).take(n as int);
    let mut i: usize = 0;
    while i < n
        invariant
            n <= a@.len(),
            n <= b@.len(),
            x == byte_strings(a@).take(n as int),
            y == byte_strings(b@).take(n as int),
            i <= n,
            forall|k: int| 0 <= k < i ==> #[trigger] x[k] == y[k],
        decreases n - i,
    {
        assert(x[i as int] == a@[i as int]@ && y[i as int] == b@[i as int]@);
        if !same_bytes(&a[i], &b[i]) {
            return false;
        }
        i += 1;
    }
    assert(x =~= y);
    true
}

fn same_bytes(a: &Vec<u8>, b: &Vec<u8>) -> (r: bool)
    ensures
        r == (a@ == b@),
{
    if a.len() != b.len() {
        return false;
    }
    let mut i: usize = 0;
    while i < a.len()
        invariant
            a@.len() == b@.len(),
            i <= a@.len(),
            forall|k: int| 0 <= k < i ==> a@[k] == b@[k],
        decreases a@.len() - i,
    {
        if a[i] != b[i] {
            return false;
        }
        i += 1;
    }
    assert(a@ =~= b@);
    true
}

/// Is `base` the path `p`, or a directory above it?
pub fn is_within(p: &[u8], base: &[u8]) -> (r: bool)
    ensures
        r == within(p@, base@),
{
    let x: Vec<Vec<u8>> = parts(p);
    let y: Vec<Vec<u8>> = parts(base);
    assert(byte_strings(x@).len() == x@.len() && byte_strings(y@).len() == y@.len());
    if y.len() > x.len() {
        return false;
    }
    let r = agree(&x, &y, y.len());
    proof {
        let n = y@.len() as int;
        assert(byte_strings(y@).take(n) =~= byte_strings(y@));
        assert(parts_of(p@).take(n) =~= parts_of(p@).subrange(0, n));
        if parts_of(base@).is_prefix_of(parts_of(p@)) {
            assert(parts_of(p@).take(n) =~= parts_of(base@));
        }
    }
    r
}

/// Do `a` and `b` have the same components?
pub fn is_same_path(a: &[u8], b: &[u8]) -> (r: bool)
    ensures
        r == same_path(a@, b@),
{
    let x: Vec<Vec<u8>> = parts(a);
    let y: Vec<Vec<u8>> = parts(b);
    assert(byte_strings(x@).len() == x@.len() && byte_strings(y@).len() == y@.len());
    if y.len() != x.len() {
        return false;
    }
    let r = agree(&x, &y, y.len());
    assert(byte_strings(x@).take(x@.len() as int) =~= byte_strings(x@));
    assert(byte_strings(y@).take(y@.len() as int) =~= byte_strings(y@));
    r
}

/// The path `rest`, seen from `base`.
pub fn join_path(base: &[u8], rest: &str) -> (r: Vec<u8>)
    ensures
        r@ == path_joined(base@, encode_utf8(rest@)),
{
    let tail: &[u8] = rest.as_bytes();
    if tail.len() > 0 && tail[0] == SEPARATOR {
        return slice_to_vec(tail);
    }
    let mut r: Vec<u8> = slice_to_vec(base);
    if base.len() > 0 && base[base.len() - 1] != SEPARATOR {
        r.push(SEPARATOR);
    }
    r.extend_from_slice(tail);
    assert(r@ =~= path_joined(base@, encode_utf8(rest@)));
    r
}

/// The last component of a path, if it is a name.
pub fn file_name(p: &[u8]) -> (r: Option<Vec<u8>>)
    ensures
        r is Some <==> file_name_of(p@) is Some,
        r is Some ==> r->0@ == file_name_of(p@)->0,
{
    let mut all: Vec<Vec<u8>> = parts(p);
    let ghost before = all@;
    assert(byte_strings(before).len() == before.len());
    match all.pop() {
        None => None,
        Some(last) => {
            assert(byte_strings(before).last() == last@);
            let root = last.len() == 1 && last[0] == SEPARATOR;
            let parent = last.len() == 2 && last[0] == DOT && last[1] == DOT;
            assert(root ==> last@ =~= seq![SEPARATOR]);
            assert(parent ==> last@ =~= seq![DOT, DOT]);
            if root || parent || is_dot(&last) {
                None
            } else {
                Some(last)
            }
        },
    }
}

/// A name in a directory: the components of the joined path are those of the
/// directory and then the name, so that it lies within the directory.
pub proof fn law_name_in_directory(base: Seq<u8>, name: Seq<u8>)
    requires
        base.len() > 0,
        name.len() > 0,
        !name.contains(SEPARATOR),
        name != seq![DOT],
    ensures
        parts_of(path_joined(base, name)) == parts_of(base).push(name),
        within(path_joined(base, name), base),
        name != seq![DOT, DOT] ==> file_name_of(path_joined(base, name)) == Some(name),
{
    let p = path_joined(base, name);
    let f = named_part();
    assert(name[0] != SEPARATOR) by {
        assert(name.contains(name[0]));
    }
    assert(pieces_of(name, SEPARATOR) == seq![name]) by {
        let q = other_than(SEPARATOR);
        assert forall|i: int| 0 <= i < name.len() implies q(#[trigger] name[i]) by {
            assert(name.contains(name[i]));
        }
        lemma_span_is(name, q, name.len());
    }
    assert(gathered(seq![name], f) =~= seq![name]) by {
        assert(seq![name].drop_last() =~= Seq::empty());
        assert(gathered(Seq::<Seq<u8>>::empty(), f) =~= Seq::empty());
    }
    if base.last() == SEPARATOR {
        let above = base.drop_last();
        assert(p =~= above.push(SEPARATOR) + name);
        assert(base =~= above.push(SEPARATOR) + Seq::<u8>::empty());
        lemma_pieces_join(above, name, SEPARATOR);
        lemma_pieces_join(above, Seq::empty(), SEPARATOR);
        assert(pieces_of(Seq::<u8>::empty(), SEPARATOR) =~= seq![Seq::<u8>::empty()]);
        let front = pieces_of(above, SEPARATOR);
        lemma_gathered_add(front, seq![name], f);
        lemma_gathered_add(front, seq![Seq::<u8>::empty()], f);
        assert(gathered(seq![Seq::<u8>::empty()], f) =~= Seq::empty()) by {
            assert(seq![Seq::<u8>::empty()].drop_last() =~= Seq::empty());
            assert(gathered(Seq::<Seq<u8>>::empty(), f) =~= Seq::empty());
        }
        assert(front.len() > 0);
        assert(pieces_of(p, SEPARATOR)[0] == front[0]);
        assert(pieces_of(base, SEPARATOR)[0] == front[0]);
    } else {
        assert(p =~= base.push(SEPARATOR) + name);
        lemma_pieces_join(base, name, SEPARATOR);
        lemma_gathered_add(pieces_of(base, SEPARATOR), seq![name], f);
        assert(pieces_of(base, SEPARATOR).len() > 0);
        assert(pieces_of(p, SEPARATOR)[0] == pieces_of(base, SEPARATOR)[0]);
    }
    assert(p[0] == base[0]);
    assert(leading_part(p) == leading_part(base));
    assert(parts_of(p) =~= parts_of(base).push(name));
    assert(parts_of(base) =~= parts_of(p).subrange(0, parts_of(base).len() as int));
    assert(name != seq![SEPARATOR]) by {
        assert(seq![SEPARATOR][0] == SEPARATOR);
    }
}

/// A path lies within another if its components are those of the other and then
/// perhaps more, and is the same if they are just those.
pub proof fn law_within(p: Seq<u8>, base: Seq<u8>)
    ensures
        within(p, base) <==> exists|rest: Seq<Seq<u8>>| parts_of(p) == #[trigger] (parts_of(base)
            + rest),
        same_path(p, base) <==> within(p, base) && within(base, p),
{
    let x = parts_of(p);
    let y = parts_of(base);
    if within(p, base) {
        let rest = x.skip(y.len() as int);
        assert(x =~= y + rest) by {
            assert(y =~= x.subrange(0, y.len() as int));
            assert forall|i: int| 0 <= i < x.len() implies x[i] == (y + rest)[i] by {
                if i < y.len() {
                    assert(x.subrange(0, y.len() as int)[i] == x[i]);
                }
            }
        }
    }
    if exists|rest: Seq<Seq<u8>>| x == #[trigger] (y + rest) {
        let rest = choose|rest: Seq<Seq<u8>>| x == #[trigger] (y + rest);
        assert(y =~= (y + rest).subrange(0, y.len() as int));
    }
    if within(p, base) && within(base, p) {
        assert(x =~= y) by {
            assert(y =~= x.subrange(0, y.len() as int));
        }
    }
    if same_path(p, base) {
        assert(x =~= x.subrange(0, x.len() as int));
    }
}

/// The components of the shortest paths: none of the empty one, the root, a lone
/// dot, and a name.
pub proof fn law_short_paths(name: Seq<u8>)
    requires
        name.len() > 0,
        !name.contains(SEPARATOR),
        name != seq![DOT],
    ensures
        parts_of(Seq::empty()) == Seq::<Seq<u8>>::empty(),
        parts_of(seq![0x2fu8]) == seq![seq![0x2fu8]],
        parts_of(seq![0x2eu8]) == seq![seq![0x2eu8]],
        parts_of(name) == seq![name],
{
    let f = named_part();
    let none = Seq::<u8>::empty();
    let q = other_than(SEPARATOR);
    assert(gathered(Seq::<Seq<u8>>::empty(), f) =~= Seq::empty());
    assert(pieces_of(none, SEPARATOR) =~= seq![none]);
    assert(seq![none].drop_last() =~= Seq::empty());
    assert(gathered(seq![none], f) =~= Seq::empty());
    assert(parts_of(none) =~= Seq::empty());
    lemma_pieces_join(none, none, SEPARATOR);
    assert(none.push(SEPARATOR) + none =~= seq![SEPARATOR]);
    lemma_gathered_add(seq![none], seq![none], f);
    assert(parts_of(seq![SEPARATOR]) =~= seq![seq![SEPARATOR]]);
    let dot = seq![DOT];
    lemma_span_is(dot, q, 1);
    assert(pieces_of(dot, SEPARATOR) =~= seq![dot]);
    assert(seq![dot].drop_last() =~= Seq::empty());
    assert(gathered(seq![dot], f) =~= Seq::empty());
    assert(parts_of(dot) =~= seq![dot]);
    assert forall|i: int| 0 <= i < name.len() implies q(#[trigger] name[i]) by {
        assert(name.contains(name[i]));
    }
    assert(name.contains(name[0]));
    lemma_span_is(name, q, name.len());
    assert(seq![name].drop_last() =~= Seq::empty());
    assert(gathered(seq![name], f) =~= seq![name]);
    assert(parts_of(name) =~= seq![name]);
}

/// A separator at the end of a path, and a dot behind it, do not count.
pub proof fn law_same_components(base: Seq<u8>)
    requires
        base.len() > 0,
    ensures
        parts_of(base.push(0x2f)) == parts_of(base),
        parts_of(base.push(0x2f).push(0x2e)) == parts_of(base),
{
    let f = named_part();
    let none = Seq::<u8>::empty();
    let dot = seq![DOT];
    let front = pieces_of(base, SEPARATOR);
    lemma_pieces_join(base, none, SEPARATOR);
    lemma_pieces_join(base, dot, SEPARATOR);
    assert(base.push(SEPARATOR) + none =~= base.push(SEPARATOR));
    assert(base.push(SEPARATOR) + dot =~= base.push(SEPARATOR).push(DOT));
    assert(pieces_of(none, SEPARATOR) =~= seq![none]);
    lemma_span_is(dot, other_than(SEPARATOR), 1);
    assert(pieces_of(dot, SEPARATOR) =~= seq![dot]);
    lemma_gathered_add(front, seq![none], f);
    lemma_gathered_add(front, seq![dot], f);
    assert(gathered(Seq::<Seq<u8>>::empty(), f) =~= Seq::empty());
    assert(seq![none].drop_last() =~= Seq::empty());
    assert(seq![dot].drop_last() =~= Seq::empty());
    assert(gathered(seq![none], f) =~= Seq::empty());
    assert(gathered(seq![dot], f) =~= Seq::empty());
    assert(front.len() > 0);
    assert(pieces_of(base.push(SEPARATOR), SEPARATOR)[0] == front[0]);
    assert(pieces_of(base.push(SEPARATOR).push(DOT), SEPARATOR)[0] == front[0]);
    assert(parts_of(base.push(SEPARATOR)) =~= parts_of(base));
    assert(parts_of(base.push(SEPARATOR).push(DOT)) =~= parts_of(base));
}

/// An absolute path stays as it is wherever it is seen from; any other follows
/// the base, with one separator between them, and alone where there is no base.
pub proof fn law_joined_paths(base: Seq<u8>, rest: Seq<u8>)
    ensures
        path_joined(base, seq![0x2fu8] + rest) == seq![0x2fu8] + rest,
        rest.len() == 0 || rest[0] != 0x2f ==> {
            &&& path_joined(Seq::empty(), rest) == rest
            &&& path_joined(base.push(0x2f), rest) == base.push(0x2f) + rest
            &&& base.len() > 0 && base.last() != 0x2f ==> path_joined(base, rest) == base.push(0x2f)
                + rest
        },
{
    assert(Seq::<u8>::empty() + rest =~= rest);
}

/// The file name is the last component; the root, a lone dot and a step up are no
/// names, and an empty path has none.
pub proof fn law_file_name(p: Seq<u8>)
    ensures
        parts_of(p).len() == 0 ==> file_name_of(p) is None,
        parts_of(p).len() > 0 ==> ({
            let last = parts_of(p).last();
            let no_name = last == seq![0x2fu8] || last == seq![0x2eu8] || last == seq![
                0x2eu8,
                0x2eu8,
            ];
            &&& no_name ==> file_name_of(p) is None
            &&& !no_name ==> file_name_of(p) == Some(last)
        }),
{
}

} // verus!
