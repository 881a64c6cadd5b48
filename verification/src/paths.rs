//! Unix paths as text: their components, joining, parents and suffixes.
//!
//! A path is its string of characters. `components` gives the meaning that
//! the platform gives it on Unix: a leading `/` is the root, separators
//! repeat freely, `.` only counts at the start of a relative path and
//! `..` always counts.
use vstd::prelude::*;
use crate::text::{append_chars, copy_chars};

verus! {

/// One component of a path.
pub enum Comp {
    Root,
    Cur,
    Parent,
    Normal(Seq<char>),
}

/// A component as the library holds it.
pub enum PathPart {
    Root,
    Cur,
    Parent,
    Normal(Vec<char>),
}

impl View for PathPart {
    type V = Comp;

    open spec fn view(&self) -> Comp {
        match self {
            PathPart::Root => Comp::Root,
            PathPart::Cur => Comp::Cur,
            PathPart::Parent => Comp::Parent,
            PathPart::Normal(v) => Comp::Normal(v@),
        }
    }
}

pub open spec fn parts_view(v: Seq<PathPart>) -> Seq<Comp> {
    v.map_values(|x: PathPart| x@)
}

/// The pieces of `p` between separators, empty ones included.
pub open spec fn pieces(p: Seq<char>) -> Seq<Seq<char>>
    decreases p.len(),
{
    if p.len() == 0 {
        seq![Seq::<char>::empty()]
    } else {
        let q = pieces(p.drop_last());
        if p.last() == '/' {
            q.push(Seq::<char>::empty())
        } else {
            q.update(q.len() - 1, q.last().push(p.last()))
        }
    }
}

/// What a piece contributes: nothing for an empty piece or `.`.
pub open spec fn piece_comp(s: Seq<char>) -> Option<Comp> {
    if s.len() == 0 || s == seq!['.'] {
        None
    } else if s == seq!['.', '.'] {
        Some(Comp::Parent)
    } else {
        Some(Comp::Normal(s))
    }
}

pub open spec fn comps_of(ps: Seq<Seq<char>>) -> Seq<Comp>
    decreases ps.len(),
{
    if ps.len() == 0 {
        Seq::empty()
    } else {
        let rest = comps_of(ps.drop_last());
        match piece_comp(ps.last()) {
            Some(c) => rest.push(c),
            None => rest,
        }
    }
}

pub open spec fn is_absolute(p: Seq<char>) -> bool {
    p.len() > 0 && p[0] == '/'
}

/// `Path::components` on Unix.
pub open spec fn components(p: Seq<char>) -> Seq<Comp> {
    if is_absolute(p) {
        seq![Comp::Root] + comps_of(pieces(p))
    } else if pieces(p)[0] == seq!['.'] {
        seq![Comp::Cur] + comps_of(pieces(p))
    } else {
        comps_of(pieces(p))
    }
}

pub proof fn lemma_pieces_nonempty(p: Seq<char>)
    ensures
        pieces(p).len() >= 1,
    decreases p.len(),
{
    if p.len() > 0 {
        lemma_pieces_nonempty(p.drop_last());
    }
}

fn part_of_piece(s: &Vec<char>) -> (r: Option<PathPart>)
    ensures
        match r {
            Some(x) => piece_comp(s@) == Some(x@),
            None => piece_comp(s@) is None,
        },
{
    if s.len() == 0 {
        return None;
    }
    if s.len() == 1 && s[0] == '.' {
        assert(s@ =~= seq!['.']);
        return None;
    }
    if s.len() == 2 && s[0] == '.' && s[1] == '.' {
        assert(s@ =~= seq!['.', '.']);
        return Some(PathPart::Parent);
    }
    proof {
        if s@ == seq!['.'] {
            assert(s@[0] == '.');
        }
        if s@ == seq!['.', '.'] {
            assert(s@[0] == '.' && s@[1] == '.');
        }
    }
    Some(PathPart::Normal(copy_chars(s)))
}

/// The components of the path `p`.
pub fn path_components(p: &Vec<char>) -> (r: Vec<PathPart>)
    ensures
        parts_view(r@) == components(p@),
{
    let mut out: Vec<PathPart> = Vec::new();
    let mut cur: Vec<char> = Vec::new();
    let mut first: Vec<char> = Vec::new();
    let mut seen_slash = false;
    let mut i: usize = 0;
    proof {
        assert(p@.take(0) =~= Seq::<char>::empty());
    }
    while i < p.len()
        invariant
            i <= p.len(),
            pieces(p@.take(i as int)).len() >= 1,
            parts_view(out@) == comps_of(pieces(p@.take(i as int)).drop_last()),
            pieces(p@.take(i as int)).last() == cur@,
            seen_slash == (pieces(p@.take(i as int)).len() > 1),
            pieces(p@.take(i as int))[0] == (if seen_slash { first@ } else { cur@ }),
        decreases p.len() - i,
    {
        let ghost q = pieces(p@.take(i as int));
        let c = p[i];
        proof {
            assert(p@.take(i + 1).drop_last() =~= p@.take(i as int));
            assert(p@.take(i + 1).last() == c);
        }
        if c == '/' {
            let ghost before = parts_view(out@);
            match part_of_piece(&cur) {
                Some(x) => {
                    out.push(x);
                    assert(parts_view(out@) =~= before.push(x@));
                },
                None => {},
            }
            proof {
                assert(q.push(Seq::<char>::empty()).drop_last() =~= q);
                assert(q =~= q.drop_last().push(q.last()));
            }
            if !seen_slash {
                first = copy_chars(&cur);
                seen_slash = true;
            }
            cur = Vec::new();
        } else {
            cur.push(c);
            proof {
                let q2 = q.update(q.len() - 1, q.last().push(c));
                assert(q2.drop_last() =~= q.drop_last());
            }
        }
        i = i + 1;
    }
    proof {
        assert(p@.take(p.len() as int) =~= p@);
        lemma_pieces_nonempty(p@);
    }
    let ghost ps = pieces(p@);
    let ghost before = parts_view(out@);
    match part_of_piece(&cur) {
        Some(x) => {
            out.push(x);
            assert(parts_view(out@) =~= before.push(x@));
        },
        None => {},
    }
    assert(parts_view(out@) == comps_of(ps));
    let absolute = p.len() > 0 && p[0] == '/';
    let first_piece = if seen_slash { first } else { cur };
    let dot = first_piece.len() == 1 && first_piece[0] == '.';
    proof {
        if dot {
            assert(first_piece@ =~= seq!['.']);
        }
        if first_piece@ == seq!['.'] {
            assert(first_piece@[0] == '.');
        }
    }
    if absolute || dot {
        let ghost body = parts_view(out@);
        let head = if absolute { PathPart::Root } else { PathPart::Cur };
        out.insert(0, head);
        assert(parts_view(out@) =~= seq![head@] + body);
    }
    out
}

/// The text of one component.
pub open spec fn comp_text(c: Comp) -> Seq<char> {
    match c {
        Comp::Root => seq!['/'],
        Comp::Cur => seq!['.'],
        Comp::Parent => seq!['.', '.'],
        Comp::Normal(s) => s,
    }
}

/// Components written out, separated by `/` (none after the root).
pub open spec fn render(cs: Seq<Comp>) -> Seq<char>
    decreases cs.len(),
{
    if cs.len() == 0 {
        Seq::empty()
    } else {
        let init = cs.drop_last();
        let sep = if init.len() > 0 && !(init.last() is Root) {
            seq!['/']
        } else {
            Seq::<char>::empty()
        };
        render(init) + sep + comp_text(cs.last())
    }
}

// ---------------------------------------------------------------------------
// Writing names out and reading them back
// ---------------------------------------------------------------------------
/// A name as `components` gives one: not empty, without a separator, and
/// neither `.` nor `..`.
pub open spec fn valid_name(s: Seq<char>) -> bool {
    s.len() > 0 && !s.contains('/') && s != seq!['.'] && s != seq!['.', '.']
}

/// Every component is a valid name.
pub open spec fn all_names(cs: Seq<Comp>) -> bool {
    forall|i: int| 0 <= i < cs.len() ==> (#[trigger] cs[i] is Normal && valid_name(cs[i]->Normal_0))
}

proof fn lemma_pieces_no_separator(p: Seq<char>)
    ensures
        forall|i: int| 0 <= i < pieces(p).len() ==> !(#[trigger] pieces(p)[i]).contains('/'),
    decreases p.len(),
{
    lemma_pieces_nonempty(p);
    if p.len() > 0 {
        lemma_pieces_no_separator(p.drop_last());
        lemma_pieces_nonempty(p.drop_last());
        let q = pieces(p.drop_last());
        if p.last() != '/' {
            let last = q.last().push(p.last());
            assert forall|k: int| 0 <= k < last.len() implies last[k] != '/' by {
                if k < q.last().len() {
                    assert(q.last() == q[q.len() - 1]);
                    assert(!q.last().contains('/'));
                    if q.last()[k] == '/' {
                        assert(q.last().contains('/'));
                    }
                }
            }
            assert(!last.contains('/'));
        } else {
            assert(!Seq::<char>::empty().contains('/'));
        }
    }
}

proof fn lemma_pieces_join(a: Seq<char>, b: Seq<char>)
    ensures
        pieces(a + seq!['/'] + b) == pieces(a) + pieces(b),
    decreases b.len(),
{
    lemma_pieces_nonempty(b);
    if b.len() == 0 {
        assert(a + seq!['/'] + b =~= a.push('/'));
        assert(a.push('/').drop_last() =~= a);
        assert(pieces(a) + pieces(b) =~= pieces(a).push(Seq::<char>::empty()));
    } else {
        let init = b.drop_last();
        lemma_pieces_join(a, init);
        lemma_pieces_nonempty(init);
        let x = a + seq!['/'] + b;
        assert(x.drop_last() =~= a + seq!['/'] + init);
        assert(x.last() == b.last());
        let q = pieces(a) + pieces(init);
        if b.last() == '/' {
            assert(q.push(Seq::<char>::empty()) =~= pieces(a) + pieces(init).push(Seq::<char>::empty()));
        } else {
            let qi = pieces(init);
            assert(q.last() == qi.last());
            assert(q.update(q.len() - 1, q.last().push(b.last())) =~= pieces(a) + qi.update(
                qi.len() - 1,
                qi.last().push(b.last()),
            ));
        }
    }
}

proof fn lemma_pieces_single(t: Seq<char>)
    requires
        !t.contains('/'),
    ensures
        pieces(t) == seq![t],
    decreases t.len(),
{
    if t.len() == 0 {
        assert(t =~= Seq::<char>::empty());
    } else {
        let init = t.drop_last();
        assert(!init.contains('/')) by {
            if init.contains('/') {
                let k = choose|k: int| 0 <= k < init.len() && init[k] == '/';
                assert(t[k] == '/');
            }
        }
        lemma_pieces_single(init);
        assert(t.last() == t[t.len() - 1]);
        if t.last() == '/' {
            assert(t.contains('/'));
        }
        assert(init.push(t.last()) =~= t);
        assert(seq![init].last() == init);
        assert(pieces(t) == seq![init].update(0, init.push(t.last())));
        assert(seq![init].update(0, init.push(t.last())) =~= seq![t]);
    }
}

proof fn lemma_comps_of_concat(x: Seq<Seq<char>>, y: Seq<Seq<char>>)
    ensures
        comps_of(x + y) == comps_of(x) + comps_of(y),
    decreases y.len(),
{
    if y.len() == 0 {
        assert(x + y =~= x);
        assert(comps_of(x) + comps_of(y) =~= comps_of(x));
    } else {
        lemma_comps_of_concat(x, y.drop_last());
        assert((x + y).drop_last() =~= x + y.drop_last());
        assert((x + y).last() == y.last());
        match piece_comp(y.last()) {
            Some(c) => {
                assert(comps_of(x) + comps_of(y.drop_last()).push(c) =~= (comps_of(x) + comps_of(
                    y.drop_last(),
                )).push(c));
            },
            None => {},
        }
    }
}

/// The texts of names.
pub open spec fn name_texts(ns: Seq<Comp>) -> Seq<Seq<char>> {
    ns.map_values(|c: Comp| comp_text(c))
}

proof fn lemma_render_pieces(ns: Seq<Comp>)
    requires
        ns.len() > 0,
        all_names(ns),
    ensures
        pieces(render(ns)) == name_texts(ns),
        comps_of(name_texts(ns)) == ns,
        render(ns).len() > 0 && render(ns)[0] != '/',
        pieces(render(ns))[0] == comp_text(ns[0]),
    decreases ns.len(),
{
    let last = ns.last();
    assert(ns[ns.len() - 1] == last);
    let t = last->Normal_0;
    lemma_pieces_single(t);
    assert(piece_comp(t) == Some(last)) by {
        if t == seq!['.'] || t == seq!['.', '.'] {
        }
    }
    if ns.len() == 1 {
        assert(ns.drop_last() =~= Seq::<Comp>::empty());
        assert(render(Seq::<Comp>::empty()) =~= Seq::<char>::empty());
        assert(comp_text(last) == t);
        assert(render(ns) =~= t);
        assert(name_texts(ns) =~= seq![t]);
        assert(seq![t].drop_last() =~= Seq::<Seq<char>>::empty());
        assert(comps_of(Seq::<Seq<char>>::empty()) =~= Seq::<Comp>::empty());
        assert(name_texts(ns).last() == t);
        assert(name_texts(ns).drop_last() =~= Seq::<Seq<char>>::empty());
        assert(comps_of(name_texts(ns)) =~= ns);
    } else {
        let init = ns.drop_last();
        assert(all_names(init)) by {
            assert forall|i: int| 0 <= i < init.len() implies (#[trigger] init[i] is Normal
                && valid_name(init[i]->Normal_0)) by {
                assert(init[i] == ns[i]);
            }
        }
        lemma_render_pieces(init);
        assert(!(init.last() is Root)) by {
            assert(init.last() == init[init.len() - 1]);
        }
        assert(render(ns) == render(init) + seq!['/'] + t);
        lemma_pieces_join(render(init), t);
        assert(name_texts(ns) =~= name_texts(init).push(t));
        assert(name_texts(init) + seq![t] =~= name_texts(init).push(t));
        assert(name_texts(ns).drop_last() =~= name_texts(init));
        assert(comps_of(name_texts(ns)) =~= comps_of(name_texts(init)).push(last));
        assert(render(ns)[0] == render(init)[0]);
        assert(pieces(render(ns))[0] == name_texts(init)[0]);
    }
}

/// Names written out with `/` read back as the same names.
pub proof fn lemma_render_components(ns: Seq<Comp>)
    requires
        ns.len() > 0,
        all_names(ns),
    ensures
        components(render(ns)) == ns,
{
    lemma_render_pieces(ns);
    assert(ns[0] is Normal);
    assert(comp_text(ns[0]) != seq!['.']);
}

/// The names among the components of a path are valid names.
pub proof fn lemma_component_names(p: Seq<char>)
    ensures
        forall|i: int|
            0 <= i < components(p).len() && (#[trigger] components(p)[i]) is Normal ==> valid_name(
                components(p)[i]->Normal_0,
            ),
{
    lemma_pieces_no_separator(p);
    lemma_comps_of_names(pieces(p));
    let c = comps_of(pieces(p));
    if is_absolute(p) {
        assert forall|i: int| 0 <= i < components(p).len() && (#[trigger] components(p)[i]) is Normal implies valid_name(
            components(p)[i]->Normal_0,
        ) by {
            assert(components(p)[i] == c[i - 1]);
        }
    } else if pieces(p)[0] == seq!['.'] {
        assert forall|i: int| 0 <= i < components(p).len() && (#[trigger] components(p)[i]) is Normal implies valid_name(
            components(p)[i]->Normal_0,
        ) by {
            assert(components(p)[i] == c[i - 1]);
        }
    }
}

proof fn lemma_comps_of_names(ps: Seq<Seq<char>>)
    requires
        forall|i: int| 0 <= i < ps.len() ==> !(#[trigger] ps[i]).contains('/'),
    ensures
        forall|i: int|
            0 <= i < comps_of(ps).len() && (#[trigger] comps_of(ps)[i]) is Normal ==> valid_name(
                comps_of(ps)[i]->Normal_0,
            ),
    decreases ps.len(),
{
    if ps.len() > 0 {
        let init = ps.drop_last();
        assert forall|i: int| 0 <= i < init.len() implies !(#[trigger] init[i]).contains('/') by {
            assert(init[i] == ps[i]);
        }
        lemma_comps_of_names(init);
        assert(ps.last() == ps[ps.len() - 1]);
    }
}

/// Components that read back from their rendering: names, possibly after a
/// root.
pub open spec fn plain_comps(cs: Seq<Comp>) -> bool {
    forall|i: int|
        0 <= i < cs.len() ==> (#[trigger] cs[i] is Normal && valid_name(cs[i]->Normal_0)) || (i
            == 0 && cs[i] is Root)
}

proof fn lemma_comps_of_no_root(ps: Seq<Seq<char>>)
    ensures
        forall|i: int| 0 <= i < comps_of(ps).len() ==> !(#[trigger] comps_of(ps)[i] is Root),
    decreases ps.len(),
{
    if ps.len() > 0 {
        lemma_comps_of_no_root(ps.drop_last());
    }
}

proof fn lemma_empty_components()
    ensures
        components(Seq::<char>::empty()) == Seq::<Comp>::empty(),
        pieces(Seq::<char>::empty()) == seq![Seq::<char>::empty()],
{
    let e = Seq::<char>::empty();
    assert(pieces(e) == seq![e]);
    assert(seq![e].drop_last() =~= Seq::<Seq<char>>::empty());
    assert(seq![e].last() == e);
    assert(comps_of(Seq::<Seq<char>>::empty()) =~= Seq::<Comp>::empty());
    assert(piece_comp(e) is None);
    assert(comps_of(seq![e]) =~= Seq::<Comp>::empty());
    assert(pieces(e)[0] != seq!['.']) by {
        assert(seq!['.'].len() == 1);
    }
}

/// The components of a path: a root only first, and names valid.
pub proof fn lemma_components_shape(p: Seq<char>)
    ensures
        forall|i: int| 0 < i < components(p).len() ==> !(#[trigger] components(p)[i] is Root),
        forall|i: int|
            0 <= i < components(p).len() && (#[trigger] components(p)[i]) is Normal ==> valid_name(
                components(p)[i]->Normal_0,
            ),
{
    lemma_component_names(p);
    lemma_comps_of_no_root(pieces(p));
    let c = comps_of(pieces(p));
    if is_absolute(p) || pieces(p)[0] == seq!['.'] {
        assert forall|i: int| 0 < i < components(p).len() implies !(#[trigger] components(p)[i] is Root) by {
            assert(components(p)[i] == c[i - 1]);
        }
    }
}

proof fn lemma_render_root()
    ensures
        render(seq![Comp::Root]) == seq!['/'],
{
    let r = seq![Comp::Root];
    assert(r.drop_last() =~= Seq::<Comp>::empty());
    assert(r.last() == Comp::Root);
    assert(render(Seq::<Comp>::empty()) =~= Seq::<char>::empty());
    assert(render(r) =~= Seq::<char>::empty() + Seq::<char>::empty() + seq!['/']);
    assert(Seq::<char>::empty() + Seq::<char>::empty() + seq!['/'] =~= seq!['/']);
}

proof fn lemma_render_rooted(ns: Seq<Comp>)
    requires
        ns.len() > 0,
        all_names(ns),
    ensures
        render(seq![Comp::Root] + ns) == seq!['/'] + render(ns),
    decreases ns.len(),
{
    let cs = seq![Comp::Root] + ns;
    let last = ns.last();
    assert(ns[ns.len() - 1] == last);
    assert(cs.last() == last);
    if ns.len() == 1 {
        assert(cs.drop_last() =~= seq![Comp::Root]);
        lemma_render_root();
        assert(ns.drop_last() =~= Seq::<Comp>::empty());
        assert(render(Seq::<Comp>::empty()) =~= Seq::<char>::empty());
        assert(render(ns) == Seq::<char>::empty() + Seq::<char>::empty() + comp_text(last));
        assert(render(ns) =~= comp_text(last));
        assert(render(cs) =~= seq!['/'] + render(ns));
    } else {
        let init = ns.drop_last();
        assert(all_names(init)) by {
            assert forall|i: int| 0 <= i < init.len() implies (#[trigger] init[i] is Normal
                && valid_name(init[i]->Normal_0)) by {
                assert(init[i] == ns[i]);
            }
        }
        lemma_render_rooted(init);
        assert(cs.drop_last() =~= seq![Comp::Root] + init);
        assert((seq![Comp::Root] + init).last() == init.last());
        assert(init.last() == init[init.len() - 1]);
        assert(!(init.last() is Root));
        assert(render(cs) == render(seq![Comp::Root] + init) + seq!['/'] + comp_text(last));
        assert(render(ns) == render(init) + seq!['/'] + comp_text(last));
        assert(render(cs) =~= seq!['/'] + render(ns));
    }
}

/// Plain components read back from their rendering.
pub proof fn lemma_render_plain(cs: Seq<Comp>)
    requires
        plain_comps(cs),
    ensures
        components(render(cs)) == cs,
{
    lemma_empty_components();
    if cs.len() == 0 {
        assert(render(cs) =~= Seq::<char>::empty());
        assert(cs =~= Seq::<Comp>::empty());
    } else if cs[0] is Normal {
        assert(all_names(cs)) by {
            assert forall|i: int| 0 <= i < cs.len() implies (#[trigger] cs[i] is Normal
                && valid_name(cs[i]->Normal_0)) by {}
        }
        lemma_render_components(cs);
    } else {
        let ns = cs.drop_first();
        assert(cs =~= seq![Comp::Root] + ns);
        assert(all_names(ns)) by {
            assert forall|i: int| 0 <= i < ns.len() implies (#[trigger] ns[i] is Normal
                && valid_name(ns[i]->Normal_0)) by {
                assert(ns[i] == cs[i + 1]);
            }
        }
        let e = Seq::<char>::empty();
        if ns.len() == 0 {
            assert(cs =~= seq![Comp::Root]);
            lemma_render_root();
            assert(render(cs) =~= seq!['/']);
            assert(seq!['/'] =~= e + seq!['/'] + e);
            lemma_pieces_join(e, e);
            assert(pieces(seq!['/']) =~= seq![e, e]);
            assert(seq![e, e].drop_last() =~= seq![e]);
            assert(comps_of(seq![e, e]) =~= Seq::<Comp>::empty());
            assert(components(render(cs)) =~= seq![Comp::Root]);
        } else {
            lemma_render_rooted(ns);
            lemma_render_pieces(ns);
            let r = render(ns);
            assert(seq!['/'] + r =~= e + seq!['/'] + r);
            lemma_pieces_join(e, r);
            lemma_comps_of_concat(seq![e], pieces(r));
            assert(comps_of(seq![e]) =~= Seq::<Comp>::empty());
            assert((seq!['/'] + r)[0] == '/');
            assert(components(render(cs)) =~= seq![Comp::Root] + ns);
        }
    }
}

/// Joining a relative path of names to a path appends its components.
pub proof fn lemma_join_components(p: Seq<char>, e: Seq<char>)
    requires
        plain_comps(components(p)),
        components(e).len() > 0,
        all_names(components(e)),
    ensures
        components(join(p, e)) == components(p) + components(e),
{
    let ce = components(e);
    assert(ce[0] is Normal);
    lemma_pieces_nonempty(e);
    lemma_pieces_nonempty(p);
    assert(!is_absolute(e)) by {
        if is_absolute(e) {
            assert(components(e)[0] == Comp::Root);
        }
    }
    assert(pieces(e)[0] != seq!['.']) by {
        if pieces(e)[0] == seq!['.'] {
            assert(components(e)[0] == Comp::Cur);
        }
    }
    assert(ce == comps_of(pieces(e)));
    let cp = components(p);
    lemma_empty_components();
    if p.len() == 0 {
        assert(join(p, e) == e);
        assert(cp =~= Seq::<Comp>::empty());
        assert(cp + ce =~= ce);
    } else {
        // `p` as a prefix before a separator.
        let base = if p.last() != '/' { p } else { p.drop_last() };
        let j = base + seq!['/'] + e;
        if p.last() != '/' {
            assert(join(p, e) == j);
        } else {
            assert(p =~= base.push('/'));
            assert(join(p, e) =~= j);
        }
        lemma_pieces_join(base, e);
        lemma_pieces_nonempty(base);
        lemma_comps_of_concat(pieces(base), pieces(e));
        let e0 = Seq::<char>::empty();
        if p.last() == '/' {
            assert(p =~= base + seq!['/'] + e0);
            lemma_pieces_join(base, e0);
            lemma_comps_of_concat(pieces(base), seq![e0]);
            assert(seq![e0].drop_last() =~= Seq::<Seq<char>>::empty());
            assert(comps_of(seq![e0]) =~= Seq::<Comp>::empty());
            assert(comps_of(pieces(base)) + comps_of(seq![e0]) =~= comps_of(pieces(base)));
            assert(comps_of(pieces(p)) == comps_of(pieces(base)));
            assert(pieces(p)[0] == pieces(base)[0]);
        } else {
            assert(comps_of(pieces(p)) == comps_of(pieces(base)));
        }
        assert(pieces(j)[0] == pieces(base)[0]);
        assert(j[0] == p[0]) by {
            if p.last() == '/' && base.len() == 0 {
                assert(p =~= seq!['/']);
            } else if p.last() == '/' {
                assert(p[0] == base[0]);
            }
        }
        if is_absolute(p) {
            assert(components(j) =~= cp + ce);
        } else {
            assert(pieces(p)[0] != seq!['.']) by {
                if pieces(p)[0] == seq!['.'] {
                    assert(cp[0] == Comp::Cur);
                }
            }
            assert(components(j) =~= cp + ce);
        }
    }
}

/// `Path::parent`, with the result written out from its components.
pub open spec fn parent(p: Seq<char>) -> Option<Seq<char>> {
    let cs = components(p);
    if cs.len() == 0 || cs.last() is Root {
        None
    } else {
        Some(render(cs.drop_last()))
    }
}

/// `Path::join` on Unix.
pub open spec fn join(base: Seq<char>, rel: Seq<char>) -> Seq<char> {
    if is_absolute(rel) {
        rel
    } else if base.len() > 0 && base.last() != '/' {
        base + seq!['/'] + rel
    } else {
        base + rel
    }
}

/// `Path::file_name`.
pub open spec fn file_name(p: Seq<char>) -> Option<Seq<char>> {
    let cs = components(p);
    if cs.len() > 0 && cs.last() is Normal {
        Some(cs.last()->Normal_0)
    } else {
        None
    }
}

/// A path with a file name has a parent.
pub proof fn lemma_file_name_has_parent(p: Seq<char>)
    ensures
        file_name(p) is Some ==> parent(p) is Some,
{
}

/// `Path::ends_with`: the components of `child` end those of `p`.
pub open spec fn path_ends_with(p: Seq<char>, child: Seq<char>) -> bool {
    let a = components(p);
    let b = components(child);
    b.len() <= a.len() && a.subrange(a.len() - b.len(), a.len() as int) == b
}

pub fn part_text(x: &PathPart) -> (r: Vec<char>)
    ensures
        r@ == comp_text(x@),
{
    match x {
        PathPart::Root => {
            let mut r = Vec::new();
            r.push('/');
            assert(r@ =~= seq!['/']);
            r
        },
        PathPart::Cur => {
            let mut r = Vec::new();
            r.push('.');
            assert(r@ =~= seq!['.']);
            r
        },
        PathPart::Parent => {
            let mut r = Vec::new();
            r.push('.');
            r.push('.');
            assert(r@ =~= seq!['.', '.']);
            r
        },
        PathPart::Normal(v) => copy_chars(v),
    }
}

/// The first `n` components of `parts` written out.
pub fn render_parts(parts: &Vec<PathPart>, n: usize) -> (r: Vec<char>)
    requires
        n <= parts.len(),
    ensures
        r@ == render(parts_view(parts@).take(n as int)),
{
    let mut r: Vec<char> = Vec::new();
    let mut k: usize = 0;
    let ghost cs = parts_view(parts@);
    assert(cs.take(0) =~= Seq::<Comp>::empty());
    while k < n
        invariant
            k <= n <= parts.len(),
            cs == parts_view(parts@),
            r@ == render(cs.take(k as int)),
        decreases n - k,
    {
        let ghost t = cs.take(k + 1);
        assert(t.drop_last() =~= cs.take(k as int));
        assert(t.last() == parts@[k as int]@);
        if k > 0 {
            let sep_needed = match &parts[k - 1] {
                PathPart::Root => false,
                _ => true,
            };
            assert(t.drop_last().last() == parts@[k - 1]@);
            if sep_needed {
                r.push('/');
            }
        }
        let txt = part_text(&parts[k]);
        let ghost before = r@;
        append_chars(&mut r, &txt);
        proof {
            let init = t.drop_last();
            let sep = if init.len() > 0 && !(init.last() is Root) {
                seq!['/']
            } else {
                Seq::<char>::empty()
            };
            if k > 0 && !(init.last() is Root) {
                assert(r@ =~= render(init) + sep + comp_text(t.last()));
            } else {
                assert(r@ =~= render(init) + sep + comp_text(t.last()));
            }
        }
        k = k + 1;
    }
    r
}

/// The parent directory of `p`.
pub fn path_parent(p: &Vec<char>) -> (r: Option<Vec<char>>)
    ensures
        match r {
            Some(q) => parent(p@) == Some(q@),
            None => parent(p@) is None,
        },
{
    let parts = path_components(p);
    let n = parts.len();
    if n == 0 {
        return None;
    }
    let is_root = match &parts[n - 1] {
        PathPart::Root => true,
        _ => false,
    };
    assert(parts_view(parts@).last() == parts@[n - 1]@);
    if is_root {
        return None;
    }
    let r = render_parts(&parts, n - 1);
    assert(parts_view(parts@).take(n - 1) =~= parts_view(parts@).drop_last());
    Some(r)
}

/// `base` joined with `rel`.
pub fn path_join(base: &Vec<char>, rel: &Vec<char>) -> (r: Vec<char>)
    ensures
        r@ == join(base@, rel@),
{
    if rel.len() > 0 && rel[0] == '/' {
        return copy_chars(rel);
    }
    let mut r = copy_chars(base);
    if base.len() > 0 && base[base.len() - 1] != '/' {
        r.push('/');
    }
    append_chars(&mut r, rel);
    r
}

/// The last component of `p` when it is a name.
pub fn path_file_name(p: &Vec<char>) -> (r: Option<Vec<char>>)
    ensures
        match r {
            Some(q) => file_name(p@) == Some(q@),
            None => file_name(p@) is None,
        },
{
    let parts = path_components(p);
    let n = parts.len();
    if n == 0 {
        return None;
    }
    assert(parts_view(parts@).last() == parts@[n - 1]@);
    match &parts[n - 1] {
        PathPart::Normal(v) => Some(copy_chars(v)),
        _ => None,
    }
}

pub fn part_eq(a: &PathPart, b: &PathPart) -> (r: bool)
    ensures
        r == (a@ == b@),
{
    match (a, b) {
        (PathPart::Root, PathPart::Root) => true,
        (PathPart::Cur, PathPart::Cur) => true,
        (PathPart::Parent, PathPart::Parent) => true,
        (PathPart::Normal(x), PathPart::Normal(y)) => crate::text::chars_eq(x, y),
        _ => false,
    }
}

/// Whether the components of `child` end those of `p`.
pub fn path_ends_with_chars(p: &Vec<char>, child: &Vec<char>) -> (r: bool)
    ensures
        r == path_ends_with(p@, child@),
{
    let a = path_components(p);
    let b = path_components(child);
    let ghost av = parts_view(a@);
    let ghost bv = parts_view(b@);
    assert(av.len() == a.len() && bv.len() == b.len());
    if b.len() > a.len() {
        return false;
    }
    let off = a.len() - b.len();
    let mut i: usize = 0;
    while i < b.len()
        invariant
            i <= b.len(),
            off + b.len() == a.len(),
            av == parts_view(a@),
            bv == parts_view(b@),
            av == components(p@),
            bv == components(child@),
            forall|k: int| 0 <= k < i ==> av[off + k] == bv[k],
        decreases b.len() - i,
    {
        assert(av[off + i] == a@[off + i]@);
        assert(bv[i as int] == b@[i as int]@);
        if !part_eq(&a[off + i], &b[i]) {
            proof {
                let sub = av.subrange(off as int, a.len() as int);
                assert(sub[i as int] == av[off + i]);
                assert(sub[i as int] != bv[i as int]);
                assert(sub != bv);
                assert(components(p@) == av);
                assert(components(child@) == bv);
                assert(!path_ends_with(p@, child@));
            }
            return false;
        }
        i = i + 1;
    }
    assert(av.subrange(off as int, a.len() as int) =~= bv);
    true
}

/// Whether `p` and `q` have the same components (`Path` equality).
pub fn path_eq(p: &Vec<char>, q: &Vec<char>) -> (r: bool)
    ensures
        r == (components(p@) == components(q@)),
{
    let a = path_components(p);
    let b = path_components(q);
    let ghost av = parts_view(a@);
    let ghost bv = parts_view(b@);
    assert(av.len() == a.len() && bv.len() == b.len());
    if a.len() != b.len() {
        return false;
    }
    let mut i: usize = 0;
    while i < a.len()
        invariant
            i <= a.len(),
            a.len() == b.len(),
            av == parts_view(a@),
            bv == parts_view(b@),
            av == components(p@),
            bv == components(q@),
            forall|k: int| 0 <= k < i ==> av[k] == bv[k],
        decreases a.len() - i,
    {
        assert(av[i as int] == a@[i as int]@);
        assert(bv[i as int] == b@[i as int]@);
        if !part_eq(&a[i], &b[i]) {
            assert(av[i as int] != bv[i as int]);
            assert(av != bv);
            assert(components(p@) == av);
            assert(components(q@) == bv);
            return false;
        }
        i = i + 1;
    }
    assert(av =~= bv);
    true
}

// ---------------------------------------------------------------------------
// The order of paths
// ---------------------------------------------------------------------------
/// The place of a component's kind in `std::path::Component`'s order on
/// Unix: the root, `.`, `..`, then names.
pub open spec fn comp_rank(c: Comp) -> int {
    match c {
        Comp::Root => 0,
        Comp::Cur => 1,
        Comp::Parent => 2,
        Comp::Normal(_) => 3,
    }
}

/// `std::path::Component`'s order: by kind, and names by their characters
/// (the order of their UTF-8 bytes).
pub open spec fn comp_less(a: Comp, b: Comp) -> bool {
    match (a, b) {
        (Comp::Normal(x), Comp::Normal(y)) => crate::text::text_less(x, y),
        _ => comp_rank(a) < comp_rank(b),
    }
}

/// Sequences of components in lexicographic order.
pub open spec fn comps_less(a: Seq<Comp>, b: Seq<Comp>) -> bool
    decreases a.len(),
{
    if a.len() == 0 {
        b.len() > 0
    } else if b.len() == 0 {
        false
    } else if a[0] != b[0] {
        comp_less(a[0], b[0])
    } else {
        comps_less(a.drop_first(), b.drop_first())
    }
}

/// `Path`'s order: its components in lexicographic order.
pub open spec fn path_less(a: Seq<char>, b: Seq<char>) -> bool {
    comps_less(components(a), components(b))
}

proof fn lemma_comp_less_order(a: Comp, b: Comp, c: Comp)
    ensures
        !comp_less(a, a),
        a != b ==> comp_less(a, b) || comp_less(b, a),
        !(comp_less(a, b) && comp_less(b, a)),
        comp_less(a, b) && comp_less(b, c) ==> comp_less(a, c),
{
    match a {
        Comp::Normal(x) => crate::text::lemma_text_less_irreflexive(x),
        _ => {},
    }
    match (a, b) {
        (Comp::Normal(x), Comp::Normal(y)) => crate::text::lemma_text_less_total(x, y),
        _ => {},
    }
    match (a, b, c) {
        (Comp::Normal(x), Comp::Normal(y), Comp::Normal(z)) => {
            if crate::text::text_less(x, y) && crate::text::text_less(y, z) {
                crate::text::lemma_text_less_transitive(x, y, z);
            }
        },
        _ => {},
    }
}

/// Component sequences are strictly and totally ordered: never below
/// themselves, one below the other when they differ, never both ways, and
/// transitively.
pub proof fn lemma_comps_less_order(a: Seq<Comp>, b: Seq<Comp>, c: Seq<Comp>)
    ensures
        !comps_less(a, a),
        a != b ==> comps_less(a, b) || comps_less(b, a),
        !(comps_less(a, b) && comps_less(b, a)),
        comps_less(a, b) && comps_less(b, c) ==> comps_less(a, c),
    decreases a.len(),
{
    if a.len() > 0 && b.len() > 0 && c.len() > 0 {
        lemma_comp_less_order(a[0], b[0], c[0]);
        lemma_comp_less_order(a[0], c[0], b[0]);
        lemma_comp_less_order(b[0], a[0], c[0]);
        lemma_comps_less_order(a.drop_first(), b.drop_first(), c.drop_first());
    } else if a.len() > 0 && b.len() > 0 {
        lemma_comp_less_order(a[0], b[0], b[0]);
        lemma_comps_less_order(a.drop_first(), b.drop_first(), b.drop_first());
    } else if a.len() > 0 {
        lemma_comp_less_order(a[0], a[0], a[0]);
        lemma_comps_less_order(a.drop_first(), a.drop_first(), a.drop_first());
    }
    if a.len() > 0 && b.len() > 0 && a[0] == b[0] && a != b {
        assert(a =~= seq![a[0]] + a.drop_first());
        assert(b =~= seq![b[0]] + b.drop_first());
    }
    if a.len() == 0 && b.len() == 0 {
        assert(a =~= b);
    }
}

fn part_rank(a: &PathPart) -> (r: u8)
    ensures
        r as int == comp_rank(a@),
{
    match a {
        PathPart::Root => 0,
        PathPart::Cur => 1,
        PathPart::Parent => 2,
        PathPart::Normal(_) => 3,
    }
}

fn part_less(a: &PathPart, b: &PathPart) -> (r: bool)
    ensures
        r == comp_less(a@, b@),
{
    match (a, b) {
        (PathPart::Normal(x), PathPart::Normal(y)) => crate::text::chars_less(x, y),
        _ => part_rank(a) < part_rank(b),
    }
}

/// Whether the path `a` comes before `b` in `Path`'s order.
pub fn path_before(a: &str, b: &str) -> (r: bool)
    ensures
        r == path_less(a@, b@),
{
    let pa = path_components(&crate::text::chars_of(a));
    let pb = path_components(&crate::text::chars_of(b));
    let ghost va = parts_view(pa@);
    let ghost vb = parts_view(pb@);
    let mut i: usize = 0;
    assert(va.skip(0) =~= va && vb.skip(0) =~= vb);
    while i < pa.len() && i < pb.len() && part_eq(&pa[i], &pb[i])
        invariant
            i <= pa.len(),
            i <= pb.len(),
            va == parts_view(pa@),
            vb == parts_view(pb@),
            va.len() == pa.len(),
            vb.len() == pb.len(),
            path_less(a@, b@) == comps_less(va.skip(i as int), vb.skip(i as int)),
        decreases pa.len() - i,
    {
        proof {
            let x = va.skip(i as int);
            let y = vb.skip(i as int);
            assert(x.drop_first() =~= va.skip(i + 1));
            assert(y.drop_first() =~= vb.skip(i + 1));
            assert(x[0] == pa@[i as int]@);
            assert(y[0] == pb@[i as int]@);
        }
        i = i + 1;
    }
    if i == pa.len() {
        return i < pb.len();
    }
    if i == pb.len() {
        return false;
    }
    proof {
        let x = va.skip(i as int);
        let y = vb.skip(i as int);
        assert(x[0] == pa@[i as int]@);
        assert(y[0] == pb@[i as int]@);
    }
    part_less(&pa[i], &pb[i])
}

} // verus!
