//! Paths as byte strings, split into components the way Unix paths are.
//!
//! Repository paths are kept as raw bytes so that names which are not UTF-8
//! survive unchanged. The functions here follow the component rules of Unix
//! paths: repeated separators are ignored, `.` is dropped except at the very
//! start of a relative path, and `..` is kept as a parent step.
use vstd::prelude::*;

use crate::bytes::bytes_eq;

verus! {

/// The byte that separates path components.
pub const SEPARATOR: u8 = 0x2f;

/// The byte `.`.
pub const DOT: u8 = 0x2e;

/// A path component.
#[derive(Debug, Clone, PartialEq, Eq)]
pub enum Component {
    RootDir,
    CurDir,
    ParentDir,
    Normal(Vec<u8>),
}

/// The abstract value of a component.
pub enum SpecComponent {
    RootDir,
    CurDir,
    ParentDir,
    Normal(Seq<u8>),
}

impl View for Component {
    type V = SpecComponent;

    open spec fn view(&self) -> SpecComponent {
        match self {
            Component::RootDir => SpecComponent::RootDir,
            Component::CurDir => SpecComponent::CurDir,
            Component::ParentDir => SpecComponent::ParentDir,
            Component::Normal(name) => SpecComponent::Normal(name@),
        }
    }
}

/// The views of a sequence of byte vectors.
pub open spec fn byte_views(v: Seq<Vec<u8>>) -> Seq<Seq<u8>> {
    v.map_values(|x: Vec<u8>| x@)
}

/// The views of a sequence of components.
pub open spec fn component_views(v: Seq<Component>) -> Seq<SpecComponent> {
    v.map_values(|x: Component| x@)
}

/// The pieces of `s` between occurrences of `sep`, in order. An empty input
/// gives one empty piece, and a separator at either end gives an empty piece
/// there.
pub open spec fn split_on(s: Seq<u8>, sep: u8) -> Seq<Seq<u8>>
    decreases s.len(),
{
    if s.len() == 0 {
        seq![Seq::<u8>::empty()]
    } else {
        let pieces = split_on(s.drop_last(), sep);
        if s.last() == sep {
            pieces.push(Seq::<u8>::empty())
        } else {
            pieces.update(pieces.len() - 1, pieces.last().push(s.last()))
        }
    }
}

/// `split_on` always yields at least one piece.
pub proof fn lemma_split_on_nonempty(s: Seq<u8>, sep: u8)
    ensures
        split_on(s, sep).len() >= 1,
    decreases s.len(),
{
    if s.len() > 0 {
        lemma_split_on_nonempty(s.drop_last(), sep);
    }
}

/// Splits `s` at every `sep` byte.
pub fn split_bytes(s: &[u8], sep: u8) -> (pieces: Vec<Vec<u8>>)
    ensures
        byte_views(pieces@) == split_on(s@, sep),
{
    let mut pieces: Vec<Vec<u8>> = Vec::new();
    let mut current: Vec<u8> = Vec::new();
    let mut i: usize = 0;
    while i < s.len()
        invariant
            i <= s.len(),
            byte_views(pieces@).push(current@) == split_on(s@.subrange(0, i as int), sep),
        decreases s.len() - i,
    {
        let ghost old_pieces = pieces@;
        let ghost old_current = current@;
        proof {
            assert(s@.subrange(0, i + 1).drop_last() =~= s@.subrange(0, i as int));
        }
        let b = s[i];
        if b == sep {
            let finished = current;
            current = Vec::new();
            pieces.push(finished);
            proof {
                assert(byte_views(pieces@) =~= byte_views(old_pieces).push(old_current));
            }
        } else {
            current.push(b);
        }
        i = i + 1;
        proof {
            assert(byte_views(pieces@).push(current@) =~= split_on(s@.subrange(0, i as int), sep));
        }
    }
    proof {
        assert(s@.subrange(0, s@.len() as int) =~= s@);
    }
    pieces.push(current);
    proof {
        assert(byte_views(pieces@) =~= split_on(s@, sep));
    }
    pieces
}


/// What one piece between separators contributes: nothing for an empty piece
/// or `.`, a parent step for `..`, and a name otherwise.
pub open spec fn piece_component(piece: Seq<u8>) -> Option<SpecComponent> {
    if piece.len() == 0 || piece == seq![DOT] {
        None
    } else if piece == seq![DOT, DOT] {
        Some(SpecComponent::ParentDir)
    } else {
        Some(SpecComponent::Normal(piece))
    }
}

/// The components that a run of pieces contributes.
pub open spec fn pieces_components(pieces: Seq<Seq<u8>>) -> Seq<SpecComponent>
    decreases pieces.len(),
{
    if pieces.len() == 0 {
        Seq::<SpecComponent>::empty()
    } else {
        let rest = pieces_components(pieces.drop_last());
        match piece_component(pieces.last()) {
            Some(c) => rest.push(c),
            None => rest,
        }
    }
}

/// Whether the path starts at the root.
pub open spec fn is_absolute(p: Seq<u8>) -> bool {
    p.len() > 0 && p[0] == SEPARATOR
}

/// The components of a Unix path.
pub open spec fn components(p: Seq<u8>) -> Seq<SpecComponent> {
    let pieces = split_on(p, SEPARATOR);
    if is_absolute(p) {
        seq![SpecComponent::RootDir] + pieces_components(pieces.drop_first())
    } else if p.len() > 0 && pieces[0] == seq![DOT] {
        seq![SpecComponent::CurDir] + pieces_components(pieces.drop_first())
    } else {
        pieces_components(pieces)
    }
}

/// Classifies one piece between separators.
fn classify_piece(piece: Vec<u8>) -> (c: Option<Component>)
    ensures
        match c {
            Some(comp) => piece_component(piece@) == Some(comp@),
            None => piece_component(piece@) is None,
        },
{
    let n = piece.len();
    if n == 0 || (n == 1 && piece[0] == DOT) {
        proof {
            if n == 1 {
                assert(piece@ =~= seq![DOT]);
            }
        }
        None
    } else if n == 2 && piece[0] == DOT && piece[1] == DOT {
        proof {
            assert(piece@ =~= seq![DOT, DOT]);
        }
        Some(Component::ParentDir)
    } else {
        proof {
            if piece@ == seq![DOT] {
                assert(piece@[0] == DOT);
            }
            if piece@ == seq![DOT, DOT] {
                assert(piece@[0] == DOT && piece@[1] == DOT);
            }
        }
        Some(Component::Normal(piece))
    }
}

/// Splits a path into its components.
pub fn components_of(p: &[u8]) -> (cs: Vec<Component>)
    ensures
        component_views(cs@) == components(p@),
{
    let pieces = split_bytes(p, SEPARATOR);
    proof {
        lemma_split_on_nonempty(p@, SEPARATOR);
    }
    let mut cs: Vec<Component> = Vec::new();
    let mut first: usize = 0;
    if p.len() > 0 && p[0] == SEPARATOR {
        cs.push(Component::RootDir);
        first = 1;
    } else if p.len() > 0 && pieces[0].len() == 1 && pieces[0][0] == DOT {
        proof {
            assert(pieces@[0]@ =~= seq![DOT]);
        }
        cs.push(Component::CurDir);
        first = 1;
    } else {
        proof {
            if p@.len() > 0 && byte_views(pieces@)[0] == seq![DOT] {
                assert(pieces@[0]@.len() == 1 && pieces@[0]@[0] == DOT);
            }
        }
    }
    let ghost head = component_views(cs@);
    let ghost rest = byte_views(pieces@).subrange(first as int, pieces@.len() as int);
    let mut i: usize = first;
    while i < pieces.len()
        invariant
            first <= i <= pieces@.len(),
            first <= 1,
            pieces@.len() >= 1,
            byte_views(pieces@) == split_on(p@, SEPARATOR),
            rest == byte_views(pieces@).subrange(first as int, pieces@.len() as int),
            component_views(cs@) == head + pieces_components(rest.subrange(0, i - first)),
        decreases pieces.len() - i,
    {
        let ghost before = cs@;
        let piece = pieces[i].clone();
        proof {
            assert(rest.subrange(0, i + 1 - first).drop_last() =~= rest.subrange(0, i - first));
            assert(rest.subrange(0, i + 1 - first).last() == piece@);
        }
        match classify_piece(piece) {
            Some(c) => {
                cs.push(c);
                proof {
                    assert(component_views(cs@) =~= component_views(before).push(c@));
                }
            },
            None => {},
        }
        i = i + 1;
        proof {
            assert(head + pieces_components(rest.subrange(0, i - first)) =~= component_views(cs@));
        }
    }
    proof {
        assert(rest.subrange(0, i - first) =~= rest);
        if first == 1 {
            assert(rest =~= split_on(p@, SEPARATOR).drop_first());
        } else {
            assert(rest =~= split_on(p@, SEPARATOR));
            assert(head =~= Seq::<SpecComponent>::empty());
            assert(component_views(cs@) =~= pieces_components(rest));
        }
    }
    cs
}


/// The bytes of names joined with single separators.
pub open spec fn join_names(names: Seq<Seq<u8>>) -> Seq<u8>
    decreases names.len(),
{
    if names.len() == 0 {
        Seq::<u8>::empty()
    } else if names.len() == 1 {
        names[0]
    } else {
        join_names(names.drop_last()) + seq![SEPARATOR] + names.last()
    }
}

/// The bytes of a path built from a root marker and a list of names.
pub open spec fn render(rooted: bool, names: Seq<Seq<u8>>) -> Seq<u8> {
    if rooted {
        seq![SEPARATOR] + join_names(names)
    } else {
        join_names(names)
    }
}

/// One step of lexical normalization: `.` is dropped, `..` removes the last
/// name when there is one, the root restarts the path, and a name is appended.
pub open spec fn normalize_step(state: (bool, Seq<Seq<u8>>), c: SpecComponent) -> (bool, Seq<Seq<u8>>) {
    match c {
        SpecComponent::CurDir => state,
        SpecComponent::ParentDir => if state.1.len() > 0 {
            (state.0, state.1.drop_last())
        } else {
            state
        },
        SpecComponent::RootDir => (true, Seq::<Seq<u8>>::empty()),
        SpecComponent::Normal(name) => (state.0, state.1.push(name)),
    }
}

/// Lexical normalization of a run of components, from an empty path.
pub open spec fn normalize_components(cs: Seq<SpecComponent>) -> (bool, Seq<Seq<u8>>)
    decreases cs.len(),
{
    if cs.len() == 0 {
        (false, Seq::<Seq<u8>>::empty())
    } else {
        normalize_step(normalize_components(cs.drop_last()), cs.last())
    }
}

/// The lexically normalized form of a path.
pub open spec fn normalized(p: Seq<u8>) -> Seq<u8> {
    let state = normalize_components(components(p));
    render(state.0, state.1)
}

/// Appends the bytes of `names`, joined by separators, to `out`.
pub(crate) fn append_joined(out: &mut Vec<u8>, names: &Vec<Vec<u8>>)
    ensures
        final(out)@ == old(out)@ + join_names(byte_views(names@)),
{
    let ghost start = out@;
    let mut i: usize = 0;
    while i < names.len()
        invariant
            i <= names@.len(),
            out@ == start + join_names(byte_views(names@).subrange(0, i as int)),
        decreases names.len() - i,
    {
        let ghost before = out@;
        let ghost prefix = byte_views(names@).subrange(0, i as int);
        let ghost next = byte_views(names@).subrange(0, i + 1);
        proof {
            assert(next.drop_last() =~= prefix);
            assert(next.last() == names@[i as int]@);
        }
        if i > 0 {
            out.push(SEPARATOR);
        }
        let name = &names[i];
        let mut j: usize = 0;
        let ghost mid = out@;
        while j < name.len()
            invariant
                j <= name@.len(),
                out@ == mid + name@.subrange(0, j as int),
            decreases name.len() - j,
        {
            out.push(name[j]);
            j = j + 1;
            proof {
                assert(out@ =~= mid + name@.subrange(0, j as int));
            }
        }
        i = i + 1;
        proof {
            assert(name@.subrange(0, name@.len() as int) =~= name@);
            if i == 1 {
                assert(next =~= seq![name@]);
                assert(out@ =~= start + join_names(next));
            } else {
                assert(out@ =~= start + join_names(next));
            }
        }
    }
    proof {
        assert(byte_views(names@).subrange(0, names@.len() as int) =~= byte_views(names@));
    }
}

/// Lexically normalizes a path without touching the file system: `.` is
/// dropped and `..` removes the preceding name.
pub fn normalize(path: &[u8]) -> (out: Vec<u8>)
    ensures
        out@ == normalized(path@),
{
    let cs = components_of(path);
    let mut rooted = false;
    let mut names: Vec<Vec<u8>> = Vec::new();
    let mut i: usize = 0;
    while i < cs.len()
        invariant
            i <= cs@.len(),
            component_views(cs@) == components(path@),
            normalize_components(component_views(cs@).subrange(0, i as int))
                == (rooted, byte_views(names@)),
        decreases cs.len() - i,
    {
        let ghost prev_names = names@;
        proof {
            assert(component_views(cs@).subrange(0, i + 1).drop_last()
                =~= component_views(cs@).subrange(0, i as int));
        }
        match &cs[i] {
            Component::CurDir => {},
            Component::ParentDir => {
                if names.len() > 0 {
                    names.pop();
                    proof {
                        assert(byte_views(names@) =~= byte_views(prev_names).drop_last());
                    }
                }
            },
            Component::RootDir => {
                rooted = true;
                names = Vec::new();
                proof {
                    assert(byte_views(names@) =~= Seq::<Seq<u8>>::empty());
                }
            },
            Component::Normal(name) => {
                names.push(name.clone());
                proof {
                    assert(byte_views(names@) =~= byte_views(prev_names).push(name@));
                }
            },
        }
        i = i + 1;
    }
    proof {
        assert(component_views(cs@).subrange(0, cs@.len() as int) =~= component_views(cs@));
    }
    let mut out: Vec<u8> = Vec::new();
    if rooted {
        out.push(SEPARATOR);
    }
    append_joined(&mut out, &names);
    proof {
        if rooted {
            assert(out@ =~= seq![SEPARATOR] + join_names(byte_views(names@)));
        } else {
            assert(out@ =~= join_names(byte_views(names@)));
        }
    }
    out
}

/// Whether `s` holds no `b` byte.
pub open spec fn no_byte(s: Seq<u8>, b: u8) -> bool {
    forall|j: int| 0 <= j < s.len() ==> s[j] != b
}

/// A name that normalization keeps: not empty, not `.` or `..`, and without
/// a separator.
pub open spec fn plain_name(n: Seq<u8>) -> bool {
    &&& n.len() > 0
    &&& n != seq![DOT]
    &&& n != seq![DOT, DOT]
    &&& no_byte(n, SEPARATOR)
}

/// Whether every name is plain.
pub open spec fn names_plain(ns: Seq<Seq<u8>>) -> bool {
    forall|i: int| 0 <= i < ns.len() ==> plain_name(#[trigger] ns[i])
}

/// Whether a component, when it is a name, is a plain one.
pub open spec fn component_plain(c: SpecComponent) -> bool {
    match c {
        SpecComponent::Normal(n) => plain_name(n),
        _ => true,
    }
}

/// Whether every name among the components is plain.
pub open spec fn normals_plain(cs: Seq<SpecComponent>) -> bool {
    forall|i: int| 0 <= i < cs.len() ==> component_plain(#[trigger] cs[i])
}

/// Names as name components.
pub open spec fn normals_of(names: Seq<Seq<u8>>) -> Seq<SpecComponent> {
    names.map_values(|n: Seq<u8>| SpecComponent::Normal(n))
}

/// The root component when a path is rooted, nothing otherwise.
pub open spec fn root_prefix(rooted: bool) -> Seq<SpecComponent> {
    if rooted {
        seq![SpecComponent::RootDir]
    } else {
        Seq::<SpecComponent>::empty()
    }
}

/// No piece of a split holds the separator.
proof fn lemma_split_pieces_lack_sep(s: Seq<u8>, sep: u8)
    ensures
        forall|i: int| 0 <= i < split_on(s, sep).len() ==> no_byte(#[trigger] split_on(s, sep)[i], sep),
    decreases s.len(),
{
    if s.len() > 0 {
        let s1 = s.drop_last();
        lemma_split_pieces_lack_sep(s1, sep);
        lemma_split_on_nonempty(s1, sep);
        let pieces = split_on(s1, sep);
        if s.last() != sep {
            let k = pieces.len() - 1;
            let grown = pieces[k].push(s.last());
            assert(no_byte(pieces[k], sep));
            assert forall|j: int| 0 <= j < grown.len() implies grown[j] != sep by {
                if j < grown.len() - 1 {
                    assert(grown[j] == pieces[k][j]);
                }
            }
            assert forall|i: int| 0 <= i < split_on(s, sep).len() implies no_byte(#[trigger] split_on(s, sep)[i], sep) by {
                if i != k {
                    assert(split_on(s, sep)[i] == pieces[i]);
                }
            }
        } else {
            assert forall|i: int| 0 <= i < split_on(s, sep).len() implies no_byte(#[trigger] split_on(s, sep)[i], sep) by {
                if i < pieces.len() {
                    assert(split_on(s, sep)[i] == pieces[i]);
                }
            }
        }
    }
}

/// The names that pieces without separators contribute are plain.
proof fn lemma_piece_names_plain(ps: Seq<Seq<u8>>)
    requires
        forall|i: int| 0 <= i < ps.len() ==> no_byte(#[trigger] ps[i], SEPARATOR),
    ensures
        normals_plain(pieces_components(ps)),
    decreases ps.len(),
{
    if ps.len() > 0 {
        let init = ps.drop_last();
        assert forall|i: int| 0 <= i < init.len() implies no_byte(#[trigger] init[i], SEPARATOR) by {
            assert(init[i] == ps[i]);
        }
        lemma_piece_names_plain(init);
        assert(no_byte(ps[ps.len() - 1], SEPARATOR));
        let rest = pieces_components(init);
        match piece_component(ps.last()) {
            Some(c) => {
                assert forall|i: int| 0 <= i < rest.push(c).len() implies component_plain(#[trigger] rest.push(c)[i]) by {
                    if i < rest.len() {
                        assert(rest.push(c)[i] == rest[i]);
                    }
                }
            },
            None => {},
        }
    }
}

/// The names among the components of any path are plain.
proof fn lemma_components_plain(p: Seq<u8>)
    ensures
        normals_plain(components(p)),
{
    let pieces = split_on(p, SEPARATOR);
    lemma_split_pieces_lack_sep(p, SEPARATOR);
    lemma_split_on_nonempty(p, SEPARATOR);
    let tail = pieces.drop_first();
    assert forall|i: int| 0 <= i < tail.len() implies no_byte(#[trigger] tail[i], SEPARATOR) by {
        assert(tail[i] == pieces[i + 1]);
    }
    lemma_piece_names_plain(tail);
    lemma_piece_names_plain(pieces);
    let rest = pieces_components(tail);
    assert forall|i: int| 0 <= i < components(p).len() implies component_plain(#[trigger] components(p)[i]) by {
        if is_absolute(p) || (p.len() > 0 && pieces[0] == seq![DOT]) {
            if i > 0 {
                assert(components(p)[i] == rest[i - 1]);
            }
        }
    }
}

/// Normalization only ever holds plain names when it reads plain ones.
proof fn lemma_normalized_names_plain(cs: Seq<SpecComponent>)
    requires
        normals_plain(cs),
    ensures
        names_plain(normalize_components(cs).1),
    decreases cs.len(),
{
    if cs.len() > 0 {
        let init = cs.drop_last();
        assert forall|i: int| 0 <= i < init.len() implies component_plain(#[trigger] init[i]) by {
            assert(init[i] == cs[i]);
        }
        lemma_normalized_names_plain(init);
        let st = normalize_components(init);
        assert(component_plain(cs[cs.len() - 1]));
        match cs.last() {
            SpecComponent::ParentDir => {
                if st.1.len() > 0 {
                    assert forall|i: int| 0 <= i < st.1.drop_last().len() implies plain_name(#[trigger] st.1.drop_last()[i]) by {
                        assert(st.1.drop_last()[i] == st.1[i]);
                    }
                }
            },
            SpecComponent::Normal(n) => {
                assert forall|i: int| 0 <= i < st.1.push(n).len() implies plain_name(#[trigger] st.1.push(n)[i]) by {
                    if i < st.1.len() {
                        assert(st.1.push(n)[i] == st.1[i]);
                    }
                }
            },
            _ => {},
        }
    }
}

/// A piece without separators splits into itself.
proof fn lemma_split_single(b: Seq<u8>, sep: u8)
    requires
        no_byte(b, sep),
    ensures
        split_on(b, sep) == seq![b],
    decreases b.len(),
{
    if b.len() > 0 {
        let b1 = b.drop_last();
        assert(no_byte(b1, sep)) by {
            assert forall|j: int| 0 <= j < b1.len() implies b1[j] != sep by {
                assert(b1[j] == b[j]);
            }
        }
        lemma_split_single(b1, sep);
        assert(b[b.len() - 1] != sep);
        assert(b1.push(b.last()) =~= b);
        assert(split_on(b, sep) =~= seq![b]);
    } else {
        assert(b =~= Seq::<u8>::empty());
    }
}

/// Splitting at a separator splits both sides.
proof fn lemma_split_concat(a: Seq<u8>, b: Seq<u8>, sep: u8)
    ensures
        split_on(a + seq![sep] + b, sep) == split_on(a, sep) + split_on(b, sep),
    decreases b.len(),
{
    let s = a + seq![sep] + b;
    lemma_split_on_nonempty(a, sep);
    if b.len() == 0 {
        assert(s.drop_last() =~= a);
        assert(s.last() == sep);
        assert(split_on(s, sep) =~= split_on(a, sep) + split_on(b, sep));
    } else {
        let b1 = b.drop_last();
        lemma_split_concat(a, b1, sep);
        lemma_split_on_nonempty(b1, sep);
        assert(s.drop_last() =~= a + seq![sep] + b1);
        assert(s.last() == b.last());
        let pa = split_on(a, sep);
        let pb = split_on(b1, sep);
        if b.last() == sep {
            assert(split_on(s, sep) =~= pa + split_on(b, sep));
        } else {
            assert((pa + pb).last() == pb.last());
            assert(split_on(s, sep) =~= pa + split_on(b, sep));
        }
    }
}

/// Plain names joined by separators split back into the names.
proof fn lemma_split_joined(names: Seq<Seq<u8>>)
    requires
        names.len() >= 1,
        names_plain(names),
    ensures
        split_on(join_names(names), SEPARATOR) == names,
    decreases names.len(),
{
    assert(plain_name(names[names.len() - 1]));
    if names.len() == 1 {
        lemma_split_single(names[0], SEPARATOR);
        assert(split_on(join_names(names), SEPARATOR) =~= names);
    } else {
        let init = names.drop_last();
        assert forall|i: int| 0 <= i < init.len() implies plain_name(#[trigger] init[i]) by {
            assert(init[i] == names[i]);
        }
        lemma_split_joined(init);
        lemma_split_concat(join_names(init), names.last(), SEPARATOR);
        lemma_split_single(names.last(), SEPARATOR);
        assert(split_on(join_names(names), SEPARATOR) =~= names);
    }
}

/// Plain names joined by separators begin with the first byte of the first.
proof fn lemma_join_first(names: Seq<Seq<u8>>)
    requires
        names.len() >= 1,
        names[0].len() > 0,
    ensures
        join_names(names).len() > 0,
        join_names(names)[0] == names[0][0],
    decreases names.len(),
{
    if names.len() > 1 {
        let init = names.drop_last();
        assert(init[0] == names[0]);
        lemma_join_first(init);
    }
}

/// Plain names as pieces give their name components.
proof fn lemma_plain_pieces(names: Seq<Seq<u8>>)
    requires
        names_plain(names),
    ensures
        pieces_components(names) == normals_of(names),
    decreases names.len(),
{
    if names.len() > 0 {
        let init = names.drop_last();
        assert forall|i: int| 0 <= i < init.len() implies plain_name(#[trigger] init[i]) by {
            assert(init[i] == names[i]);
        }
        lemma_plain_pieces(init);
        assert(plain_name(names[names.len() - 1]));
        assert(normals_of(names) =~= normals_of(init).push(SpecComponent::Normal(names.last())));
    } else {
        assert(normals_of(names) =~= Seq::<SpecComponent>::empty());
    }
}

/// A lone empty piece contributes nothing.
proof fn lemma_empty_piece()
    ensures
        pieces_components(seq![Seq::<u8>::empty()]) == Seq::<SpecComponent>::empty(),
{
    let one = seq![Seq::<u8>::empty()];
    assert(one.drop_last() =~= Seq::<Seq<u8>>::empty());
    assert(pieces_components(Seq::<Seq<u8>>::empty()) == Seq::<SpecComponent>::empty());
    assert(piece_component(one.last()) is None);
}

/// The components of a path written from plain names are the names, after
/// the root when it is rooted.
proof fn lemma_components_of_render(rooted: bool, names: Seq<Seq<u8>>)
    requires
        names_plain(names),
    ensures
        components(render(rooted, names)) == root_prefix(rooted) + normals_of(names),
{
    let j = join_names(names);
    let empty = Seq::<u8>::empty();
    if rooted {
        lemma_split_concat(empty, j, SEPARATOR);
        assert(empty + seq![SEPARATOR] + j =~= seq![SEPARATOR] + j);
        let pieces = split_on(seq![SEPARATOR] + j, SEPARATOR);
        assert(split_on(empty, SEPARATOR) =~= seq![empty]);
        if names.len() == 0 {
            assert(pieces.drop_first() =~= seq![empty]);
            lemma_empty_piece();
            assert(normals_of(names) =~= Seq::<SpecComponent>::empty());
            assert(components(render(rooted, names)) =~= root_prefix(rooted) + normals_of(names));
        } else {
            lemma_split_joined(names);
            lemma_plain_pieces(names);
            assert(pieces.drop_first() =~= names);
            assert(components(render(rooted, names)) =~= root_prefix(rooted) + normals_of(names));
        }
    } else {
        if names.len() == 0 {
            assert(j =~= empty);
            assert(split_on(j, SEPARATOR) =~= seq![empty]);
            lemma_empty_piece();
            assert(normals_of(names) =~= Seq::<SpecComponent>::empty());
            assert(components(render(rooted, names)) =~= root_prefix(rooted) + normals_of(names));
        } else {
            lemma_split_joined(names);
            lemma_plain_pieces(names);
            assert(plain_name(names[0]));
            lemma_join_first(names);
            assert(names[0][0] != SEPARATOR);
            assert(components(render(rooted, names)) =~= root_prefix(rooted) + normals_of(names));
        }
    }
}

/// Normalization reads back the names and root it wrote.
proof fn lemma_normalize_normals(rooted: bool, names: Seq<Seq<u8>>)
    ensures
        normalize_components(root_prefix(rooted) + normals_of(names)) == (rooted, names),
    decreases names.len(),
{
    let cs = root_prefix(rooted) + normals_of(names);
    if names.len() == 0 {
        assert(names =~= Seq::<Seq<u8>>::empty());
        assert(cs =~= root_prefix(rooted));
        if rooted {
            assert(cs.drop_last() =~= Seq::<SpecComponent>::empty());
        }
    } else {
        let init = names.drop_last();
        lemma_normalize_normals(rooted, init);
        assert(cs.drop_last() =~= root_prefix(rooted) + normals_of(init));
        assert(cs.last() == SpecComponent::Normal(names.last()));
        assert(init.push(names.last()) =~= names);
    }
}

/// Normalizing a path twice gives what normalizing it once gives.
pub proof fn lemma_normalize_idempotent(p: Seq<u8>)
    ensures
        normalized(normalized(p)) == normalized(p),
{
    let st = normalize_components(components(p));
    lemma_components_plain(p);
    lemma_normalized_names_plain(components(p));
    lemma_components_of_render(st.0, st.1);
    lemma_normalize_normals(st.0, st.1);
}

/// `base` with `rel` appended the way a path buffer appends: an absolute
/// `rel` replaces `base`; otherwise a separator goes between them unless
/// `base` is empty or already ends in one.
pub open spec fn joined(base: Seq<u8>, rel: Seq<u8>) -> Seq<u8> {
    if is_absolute(rel) {
        rel
    } else if base.len() > 0 && base.last() != SEPARATOR {
        base + seq![SEPARATOR] + rel
    } else {
        base + rel
    }
}

/// Appends a relative path to a base path.
pub fn join(base: &[u8], rel: &[u8]) -> (out: Vec<u8>)
    ensures
        out@ == joined(base@, rel@),
{
    let mut out: Vec<u8> = Vec::new();
    if rel.len() > 0 && rel[0] == SEPARATOR {
        extend_from(&mut out, rel);
        proof {
            assert(out@ =~= rel@);
        }
        return out;
    }
    extend_from(&mut out, base);
    if base.len() > 0 && base[base.len() - 1] != SEPARATOR {
        out.push(SEPARATOR);
    }
    extend_from(&mut out, rel);
    proof {
        if base@.len() > 0 && base@.last() != SEPARATOR {
            assert(out@ =~= base@ + seq![SEPARATOR] + rel@);
        } else {
            assert(out@ =~= base@ + rel@);
        }
    }
    out
}

/// Appends every byte of `bytes` to `out`.
pub fn extend_from(out: &mut Vec<u8>, bytes: &[u8])
    ensures
        final(out)@ == old(out)@ + bytes@,
{
    let ghost start = out@;
    let mut i: usize = 0;
    while i < bytes.len()
        invariant
            i <= bytes@.len(),
            out@ == start + bytes@.subrange(0, i as int),
        decreases bytes.len() - i,
    {
        out.push(bytes[i]);
        i = i + 1;
        proof {
            assert(out@ =~= start + bytes@.subrange(0, i as int));
        }
    }
    proof {
        assert(bytes@.subrange(0, bytes@.len() as int) =~= bytes@);
    }
}


/// Whether `prefix` is a prefix of `s`, element by element.
pub open spec fn is_prefix_of<T>(prefix: Seq<T>, s: Seq<T>) -> bool {
    prefix.len() <= s.len() && forall|i: int| 0 <= i < prefix.len() ==> prefix[i] == s[i]
}

/// Whether `path` is `parent` or lies below it: the components of `parent`
/// begin the components of `path`.
pub open spec fn inside(path: Seq<u8>, parent: Seq<u8>) -> bool {
    is_prefix_of(components(parent), components(path))
}

/// Equality of two components.
fn component_eq(a: &Component, b: &Component) -> (r: bool)
    ensures
        r == (a@ == b@),
{
    match (a, b) {
        (Component::RootDir, Component::RootDir) => true,
        (Component::CurDir, Component::CurDir) => true,
        (Component::ParentDir, Component::ParentDir) => true,
        (Component::Normal(x), Component::Normal(y)) => bytes_eq(x.as_slice(), y.as_slice()),
        _ => false,
    }
}

/// Whether `path` equals `parent` or lies inside it, comparing whole
/// components.
pub fn is_inside(path: &[u8], parent: &[u8]) -> (r: bool)
    ensures
        r == inside(path@, parent@),
{
    let cp = components_of(path);
    let cq = components_of(parent);
    if cq.len() > cp.len() {
        return false;
    }
    let mut i: usize = 0;
    while i < cq.len()
        invariant
            i <= cq@.len(),
            cq@.len() <= cp@.len(),
            component_views(cp@) == components(path@),
            component_views(cq@) == components(parent@),
            forall|k: int| 0 <= k < i ==> cq@[k]@ == cp@[k]@,
        decreases cq.len() - i,
    {
        if !component_eq(&cq[i], &cp[i]) {
            proof {
                assert(components(parent@)[i as int] != components(path@)[i as int]);
            }
            return false;
        }
        i = i + 1;
    }
    proof {
        assert forall|k: int| 0 <= k < components(parent@).len() implies
            components(parent@)[k] == components(path@)[k] by {
            assert(cq@[k]@ == cp@[k]@);
        }
    }
    true
}

/// The final component of a path when it is a name.
pub open spec fn file_name(p: Seq<u8>) -> Option<Seq<u8>> {
    let cs = components(p);
    if cs.len() > 0 {
        match cs.last() {
            SpecComponent::Normal(name) => Some(name),
            _ => None,
        }
    } else {
        None
    }
}

/// The final component of a path when it is a name.
pub fn file_name_of(p: &[u8]) -> (r: Option<Vec<u8>>)
    ensures
        match r {
            Some(name) => file_name(p@) == Some(name@),
            None => file_name(p@) is None,
        },
{
    let mut cs = components_of(p);
    if cs.len() == 0 {
        return None;
    }
    let ghost all = component_views(cs@);
    let last = cs.pop().unwrap();
    proof {
        assert(all.last() == last@);
    }
    match last {
        Component::Normal(name) => Some(name),
        _ => None,
    }
}

/// The index of the last `.` in `s`, or -1 when there is none.
pub open spec fn last_dot(s: Seq<u8>) -> int
    decreases s.len(),
{
    if s.len() == 0 {
        -1
    } else if s.last() == DOT {
        s.len() - 1
    } else {
        last_dot(s.drop_last())
    }
}

proof fn lemma_last_dot(s: Seq<u8>)
    ensures
        -1 <= last_dot(s) < s.len(),
        last_dot(s) >= 0 ==> s[last_dot(s)] == DOT,
        forall|k: int| last_dot(s) < k < s.len() ==> s[k] != DOT,
    decreases s.len(),
{
    if s.len() > 0 && s.last() != DOT {
        lemma_last_dot(s.drop_last());
        assert forall|k: int| last_dot(s) < k < s.len() implies s[k] != DOT by {
            if k < s.len() - 1 {
                assert(s.drop_last()[k] == s[k]);
            }
        }
    }
}

/// The extension of a file name: what follows its last `.`, unless the name
/// is `..`, has no `.`, or has its only `.` first.
pub open spec fn extension_of_name(name: Seq<u8>) -> Option<Seq<u8>> {
    if name == seq![DOT, DOT] || last_dot(name) <= 0 {
        None
    } else {
        Some(name.subrange(last_dot(name) + 1, name.len() as int))
    }
}

/// The extension of a file name.
pub fn name_extension(name: &[u8]) -> (r: Option<Vec<u8>>)
    ensures
        match r {
            Some(ext) => extension_of_name(name@) == Some(ext@),
            None => extension_of_name(name@) is None,
        },
{
    proof {
        lemma_last_dot(name@);
    }
    if name.len() == 2 && name[0] == DOT && name[1] == DOT {
        proof {
            assert(name@ =~= seq![DOT, DOT]);
        }
        return None;
    }
    let mut i: usize = name.len();
    while i > 0 && name[i - 1] != DOT
        invariant
            i <= name@.len(),
            forall|k: int| i <= k < name@.len() ==> name@[k] != DOT,
        decreases i,
    {
        i = i - 1;
    }
    proof {
        if name@ == seq![DOT, DOT] {
            assert(name@[0] == DOT && name@[1] == DOT);
        }
        if i > 0 {
            assert(last_dot(name@) >= i - 1) by {
                if last_dot(name@) < i - 1 {
                    assert(name@[i - 1] != DOT);
                }
            }
            assert(last_dot(name@) == i - 1);
        } else {
            assert(last_dot(name@) <= 0) by {
                if last_dot(name@) > 0 {
                    assert(name@[last_dot(name@)] == DOT);
                }
            }
        }
    }
    if i <= 1 {
        return None;
    }
    let mut ext: Vec<u8> = Vec::new();
    let mut j: usize = i;
    while j < name.len()
        invariant
            i <= j <= name@.len(),
            ext@ == name@.subrange(i as int, j as int),
        decreases name.len() - j,
    {
        ext.push(name[j]);
        j = j + 1;
        proof {
            assert(ext@ =~= name@.subrange(i as int, j as int));
        }
    }
    Some(ext)
}

} // verus!
