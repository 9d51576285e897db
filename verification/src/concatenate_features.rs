use vstd::prelude::*;
use std::collections::VecDeque;

verus! {

/// An endpoint of a line string: its start or its end.
#[derive(PartialEq, Eq, Structural, Debug, Clone, Copy)]
pub struct Endpoint {
    pub line: usize,
    pub is_start: bool,
}

/// A line string of at least two coordinates as merging reads it.
/// `start_point` and `end_point` identify the coordinates of its two endpoints
/// (equal identifiers for equal coordinates); `property_class` identifies its
/// properties (equal for equal properties); `near_start` and `near_end` list the
/// endpoints within merging distance of its start and of its end, in the order
/// the spatial index reports them.
pub struct LineStringInfo {
    pub coord_count: usize,
    pub start_point: usize,
    pub end_point: usize,
    pub property_class: usize,
    pub near_start: Vec<Endpoint>,
    pub near_end: Vec<Endpoint>,
}

/// One coordinate of the input: coordinate `index` of line string `line`.
#[derive(PartialEq, Eq, Structural, Debug, Clone, Copy)]
pub struct CoordRef {
    pub line: usize,
    pub index: usize,
}

/// One line string taken into a merged line: at its back or at its front,
/// in its own or in reverse order, and whether the coordinate it was joined at
/// was dropped from the merged line as a duplicate.
#[derive(PartialEq, Eq, Structural, Debug, Clone, Copy)]
pub struct Piece {
    pub line: usize,
    pub at_front: bool,
    pub reversed: bool,
    pub joined: bool,
}

/// A merged line: the line string it started from, the line strings it took in
/// in the order they were taken, and its coordinates.
pub struct MergedLine {
    pub seed: usize,
    pub pieces: Vec<Piece>,
    pub coords: VecDeque<CoordRef>,
}

/// Endpoints name existing line strings and every line string has two coordinates or more.
pub open spec fn lines_wf(lines: Seq<LineStringInfo>) -> bool {
    &&& forall|l: int| 0 <= l < lines.len() ==> #[trigger] lines[l].coord_count >= 2
    &&& forall|l: int, q: int|
        0 <= l < lines.len() && 0 <= q < lines[l].near_start@.len() ==> #[trigger] lines[l].near_start@[q].line
            < lines.len()
    &&& forall|l: int, q: int|
        0 <= l < lines.len() && 0 <= q < lines[l].near_end@.len() ==> #[trigger] lines[l].near_end@[q].line
            < lines.len()
}

pub open spec fn endpoint_point(lines: Seq<LineStringInfo>, e: Endpoint) -> usize {
    if e.is_start {
        lines[e.line as int].start_point
    } else {
        lines[e.line as int].end_point
    }
}

pub open spec fn near_of(lines: Seq<LineStringInfo>, e: Endpoint) -> Seq<Endpoint> {
    if e.is_start {
        lines[e.line as int].near_start@
    } else {
        lines[e.line as int].near_end@
    }
}

/// The line strings taken by a sequence of pieces.
pub open spec fn lines_of(pieces: Seq<Piece>) -> Set<usize>
    decreases pieces.len(),
{
    if pieces.len() == 0 {
        Set::empty()
    } else {
        lines_of(pieces.drop_last()).insert(pieces.last().line)
    }
}

/// An endpoint whose line string is not merged yet and has the given properties.
pub open spec fn eligible(lines: Seq<LineStringInfo>, class: usize, merged: Set<usize>, e: Endpoint) -> bool {
    !merged.contains(e.line) && lines[e.line as int].property_class == class
}

/// `near[q]` is the first eligible endpoint of `near`.
pub open spec fn first_eligible(
    lines: Seq<LineStringInfo>,
    class: usize,
    merged: Set<usize>,
    near: Seq<Endpoint>,
    q: int,
) -> bool {
    &&& 0 <= q < near.len()
    &&& eligible(lines, class, merged, near[q])
    &&& forall|r: int| 0 <= r < q ==> !eligible(lines, class, merged, #[trigger] near[r])
}

pub open spec fn none_eligible(lines: Seq<LineStringInfo>, class: usize, merged: Set<usize>, near: Seq<Endpoint>) -> bool {
    forall|r: int| 0 <= r < near.len() ==> !eligible(lines, class, merged, #[trigger] near[r])
}

/// The endpoint whose coordinate ends the merged line built from `pieces`.
pub open spec fn back_end(pieces: Seq<Piece>) -> Endpoint
    decreases pieces.len(),
{
    if pieces.len() == 0 {
        Endpoint { line: 0, is_start: false }
    } else if pieces.len() > 1 && pieces.last().at_front {
        back_end(pieces.drop_last())
    } else {
        Endpoint { line: pieces.last().line, is_start: pieces.last().reversed }
    }
}

/// The endpoint whose coordinate starts the merged line built from `pieces`.
pub open spec fn front_end(pieces: Seq<Piece>) -> Endpoint
    decreases pieces.len(),
{
    if pieces.len() == 0 {
        Endpoint { line: 0, is_start: true }
    } else if pieces.len() > 1 && !pieces.last().at_front {
        front_end(pieces.drop_last())
    } else {
        Endpoint { line: pieces.last().line, is_start: true }
    }
}

/// The piece taken at the back through the candidate endpoint `e`: a start is
/// followed forward, an end in reverse; the joint is dropped where the
/// coordinates of the two endpoints are equal.
pub open spec fn piece_at_back(lines: Seq<LineStringInfo>, back: Endpoint, e: Endpoint) -> Piece {
    Piece {
        line: e.line,
        at_front: false,
        reversed: !e.is_start,
        joined: endpoint_point(lines, back) == endpoint_point(lines, e),
    }
}

/// The piece taken at the front through the candidate endpoint `e`: the line
/// string is put before the merged line in its own order, whichever of its
/// endpoints was found; the front coordinate is dropped where it equals the
/// coordinate of `e`.
pub open spec fn piece_at_front(lines: Seq<LineStringInfo>, front: Endpoint, e: Endpoint) -> Piece {
    Piece {
        line: e.line,
        at_front: true,
        reversed: false,
        joined: endpoint_point(lines, front) == endpoint_point(lines, e),
    }
}

/// Whether `p` is the piece that extending the merged line built from
/// `prefix` takes: the first eligible endpoint near its back, or, where there
/// is none, the first eligible endpoint near its front.
pub open spec fn valid_step(
    lines: Seq<LineStringInfo>,
    class: usize,
    merged: Set<usize>,
    prefix: Seq<Piece>,
    p: Piece,
) -> bool {
    let back = back_end(prefix);
    let front = front_end(prefix);
    if !p.at_front {
        exists|q: int|
            first_eligible(lines, class, merged, near_of(lines, back), q) && p == piece_at_back(
                lines,
                back,
                #[trigger] near_of(lines, back)[q],
            )
    } else {
        &&& none_eligible(lines, class, merged, near_of(lines, back))
        &&& exists|q: int|
            first_eligible(lines, class, merged, near_of(lines, front), q) && p == piece_at_front(
                lines,
                front,
                #[trigger] near_of(lines, front)[q],
            )
    }
}

/// The coordinates of line string `line`, in order.
pub open spec fn line_coords(line: usize, count: nat) -> Seq<CoordRef> {
    Seq::new(count, |k: int| CoordRef { line, index: k as usize })
}

pub open spec fn piece_coords(lines: Seq<LineStringInfo>, p: Piece) -> Seq<CoordRef> {
    if p.reversed {
        line_coords(p.line, lines[p.line as int].coord_count as nat).reverse()
    } else {
        line_coords(p.line, lines[p.line as int].coord_count as nat)
    }
}

/// The coordinates of the merged line built from `pieces`: each piece appended
/// at the back or put before the front, less the dropped joint.
pub open spec fn assemble(lines: Seq<LineStringInfo>, pieces: Seq<Piece>) -> Seq<CoordRef>
    decreases pieces.len(),
{
    if pieces.len() == 0 {
        Seq::empty()
    } else {
        let prev = assemble(lines, pieces.drop_last());
        let p = pieces.last();
        if p.at_front {
            piece_coords(lines, p) + (if p.joined {
                prev.drop_first()
            } else {
                prev
            })
        } else {
            (if p.joined {
                prev.drop_last()
            } else {
                prev
            }) + piece_coords(lines, p)
        }
    }
}

/// Piece `p` of `pieces` is the one that extending by the rules takes, the line
/// strings of `before` being merged already.
pub open spec fn step_ok(lines: Seq<LineStringInfo>, before: Set<usize>, pieces: Seq<Piece>, p: int) -> bool {
    valid_step(
        lines,
        lines[pieces[0].line as int].property_class,
        before + lines_of(pieces.take(p)),
        pieces.take(p),
        pieces[p],
    )
}

/// `chain` is the merged line that the rules build when the line strings of
/// `before` are merged already: it starts from the first line string not yet
/// merged, takes piece after piece by `valid_step`, stops where no eligible
/// endpoint is near either end, and has the coordinates its pieces assemble to.
pub open spec fn chain_correct(lines: Seq<LineStringInfo>, before: Set<usize>, chain: MergedLine) -> bool {
    let ps = chain.pieces@;
    let class = lines[chain.seed as int].property_class;
    &&& ps.len() >= 1
    &&& chain.seed < lines.len()
    &&& ps[0] == (Piece { line: chain.seed, at_front: false, reversed: false, joined: false })
    &&& !before.contains(chain.seed)
    &&& forall|j: usize| j < chain.seed ==> #[trigger] before.contains(j)
    &&& forall|p: int| 1 <= p < ps.len() ==> #[trigger] step_ok(lines, before, ps, p)
    &&& none_eligible(lines, class, before + lines_of(ps), near_of(lines, back_end(ps)))
    &&& none_eligible(lines, class, before + lines_of(ps), near_of(lines, front_end(ps)))
    &&& chain.coords@ == assemble(lines, ps)
}

/// The pieces of all merged lines, in order.
pub open spec fn flat_pieces(chains: Seq<MergedLine>) -> Seq<Piece>
    decreases chains.len(),
{
    if chains.len() == 0 {
        Seq::empty()
    } else {
        flat_pieces(chains.drop_last()) + chains.last().pieces@
    }
}

/// The merged lines that the rules build from `lines`: each merged line is the
/// one built when those before it are merged, and every line string is merged.
pub open spec fn merge_result(lines: Seq<LineStringInfo>, chains: Seq<MergedLine>) -> bool {
    &&& forall|c: int|
        0 <= c < chains.len() ==> chain_correct(lines, lines_of(flat_pieces(chains.take(c))), #[trigger] chains[c])
    &&& forall|j: int| 0 <= j < lines.len() ==> #[trigger] lines_of(flat_pieces(chains)).contains(j as usize)
}

pub open spec fn count_unmerged(s: Seq<bool>) -> nat
    decreases s.len(),
{
    if s.len() == 0 {
        0
    } else {
        count_unmerged(s.drop_last()) + if s.last() {
            0nat
        } else {
            1nat
        }
    }
}

proof fn lemma_count_unmerged_set(s: Seq<bool>, i: int)
    requires
        0 <= i < s.len(),
        !s[i],
    ensures
        count_unmerged(s.update(i, true)) + 1 == count_unmerged(s),
    decreases s.len(),
{
    let t = s.update(i, true);
    if i < s.len() - 1 {
        assert(t.drop_last() =~= s.drop_last().update(i, true));
        lemma_count_unmerged_set(s.drop_last(), i);
    } else {
        assert(t.drop_last() =~= s.drop_last());
    }
}

proof fn lemma_lines_of_concat(a: Seq<Piece>, b: Seq<Piece>)
    ensures
        lines_of(a + b) == lines_of(a) + lines_of(b),
    decreases b.len(),
{
    if b.len() == 0 {
        assert(a + b =~= a);
        assert(lines_of(a) + Set::<usize>::empty() =~= lines_of(a));
    } else {
        assert((a + b).drop_last() =~= a + b.drop_last());
        lemma_lines_of_concat(a, b.drop_last());
        assert(lines_of(a + b) =~= lines_of(a) + lines_of(b));
    }
}

/// A sequence of pieces takes the line string of each of its pieces, and no other.
pub proof fn lemma_lines_of_members(pieces: Seq<Piece>, x: usize)
    ensures
        lines_of(pieces).contains(x) <==> exists|k: int| 0 <= k < pieces.len() && #[trigger] pieces[k].line == x,
    decreases pieces.len(),
{
    if pieces.len() > 0 {
        let ps = pieces.drop_last();
        lemma_lines_of_members(ps, x);
        if lines_of(pieces).contains(x) {
            if x == pieces.last().line {
                assert(pieces[pieces.len() - 1].line == x);
            } else {
                let k = choose|k: int| 0 <= k < ps.len() && #[trigger] ps[k].line == x;
                assert(pieces[k].line == x);
            }
        }
        if exists|k: int| 0 <= k < pieces.len() && #[trigger] pieces[k].line == x {
            let k = choose|k: int| 0 <= k < pieces.len() && #[trigger] pieces[k].line == x;
            if k < pieces.len() - 1 {
                assert(ps[k].line == x);
            }
        }
    }
}

/// The index of the first eligible endpoint of `near`, if any.
fn find_candidate(
    lines: &Vec<LineStringInfo>,
    is_merged: &Vec<bool>,
    class: usize,
    near: &Vec<Endpoint>,
    Ghost(merged): Ghost<Set<usize>>,
) -> (r: Option<usize>)
    requires
        is_merged@.len() == lines@.len(),
        forall|j: int| 0 <= j < lines@.len() ==> #[trigger] is_merged@[j] == merged.contains(j as usize),
        forall|q: int| 0 <= q < near@.len() ==> #[trigger] near@[q].line < lines@.len(),
    ensures
        match r {
            Some(q) => first_eligible(lines@, class, merged, near@, q as int),
            None => none_eligible(lines@, class, merged, near@),
        },
{
    let mut q: usize = 0;
    while q < near.len()
        invariant
            0 <= q <= near@.len(),
            is_merged@.len() == lines@.len(),
            forall|j: int| 0 <= j < lines@.len() ==> #[trigger] is_merged@[j] == merged.contains(j as usize),
            forall|q: int| 0 <= q < near@.len() ==> #[trigger] near@[q].line < lines@.len(),
            forall|r: int| 0 <= r < q ==> !eligible(lines@, class, merged, #[trigger] near@[r]),
        decreases near@.len() - q,
    {
        let e = near[q];
        if !is_merged[e.line] && lines[e.line].property_class == class {
            return Some(q);
        }
        q = q + 1;
    }
    None
}

/// Appends the coordinates of line string `line` at the back, in its own or in reverse order.
fn push_line_back(coords: &mut VecDeque<CoordRef>, line: usize, count: usize, reversed: bool)
    ensures
        final(coords)@ == old(coords)@ + (if reversed {
            line_coords(line, count as nat).reverse()
        } else {
            line_coords(line, count as nat)
        }),
{
    let ghost start = coords@;
    let ghost piece = if reversed {
        line_coords(line, count as nat).reverse()
    } else {
        line_coords(line, count as nat)
    };
    let mut k: usize = 0;
    while k < count
        invariant
            0 <= k <= count,
            piece == (if reversed {
                line_coords(line, count as nat).reverse()
            } else {
                line_coords(line, count as nat)
            }),
            coords@ =~= start + piece.take(k as int),
        decreases count - k,
    {
        let index = if reversed {
            count - 1 - k
        } else {
            k
        };
        coords.push_back(CoordRef { line, index });
        assert(piece[k as int] == CoordRef { line, index });
        assert(piece.take(k + 1) =~= piece.take(k as int).push(piece[k as int]));
        k = k + 1;
    }
    assert(piece.take(count as int) =~= piece);
}

/// Puts the coordinates of line string `line`, in its own order, before the front.
fn push_line_front(coords: &mut VecDeque<CoordRef>, line: usize, count: usize)
    ensures
        final(coords)@ == line_coords(line, count as nat) + old(coords)@,
{
    let ghost start = coords@;
    let ghost piece = line_coords(line, count as nat);
    let mut k: usize = count;
    while k > 0
        invariant
            0 <= k <= count,
            piece == line_coords(line, count as nat),
            coords@ =~= piece.skip(k as int) + start,
        decreases k,
    {
        k = k - 1;
        coords.push_front(CoordRef { line, index: k });
        assert(piece.skip(k as int) =~= seq![piece[k as int]] + piece.skip(k + 1));
    }
    assert(piece.skip(0) =~= piece);
}

/// Builds the merged line that starts from line string `seed`, the line strings
/// of `before` being merged already, and marks the line strings it takes.
fn build_chain(
    lines: &Vec<LineStringInfo>,
    is_merged: &mut Vec<bool>,
    seed: usize,
    Ghost(before): Ghost<Set<usize>>,
) -> (chain: MergedLine)
    requires
        lines_wf(lines@),
        seed < lines@.len(),
        old(is_merged)@.len() == lines@.len(),
        forall|j: int| 0 <= j < lines@.len() ==> #[trigger] old(is_merged)@[j] == before.contains(j as usize),
        !before.contains(seed),
        forall|j: usize| j < seed ==> #[trigger] before.contains(j),
    ensures
        chain_correct(lines@, before, chain),
        chain.seed == seed,
        final(is_merged)@.len() == lines@.len(),
        forall|j: int|
            0 <= j < lines@.len() ==> #[trigger] final(is_merged)@[j] == (before + lines_of(chain.pieces@)).contains(
                j as usize,
            ),
        forall|x: usize| #[trigger] lines_of(chain.pieces@).contains(x) ==> x < lines@.len(),
{
    let n = lines.len();
    let class = lines[seed].property_class;
    is_merged.set(seed, true);
    let mut pieces: Vec<Piece> = Vec::new();
    pieces.push(Piece { line: seed, at_front: false, reversed: false, joined: false });
    let mut coords: VecDeque<CoordRef> = VecDeque::new();
    push_line_back(&mut coords, seed, lines[seed].coord_count, false);
    let mut back = Endpoint { line: seed, is_start: false };
    let mut front = Endpoint { line: seed, is_start: true };
    proof {
        assert(pieces@.len() == 1);
        assert(pieces@.drop_last() =~= Seq::<Piece>::empty());
        assert(lines_of(pieces@.drop_last()) == Set::<usize>::empty());
        assert(assemble(lines@, pieces@.drop_last()) == Seq::<CoordRef>::empty());
        assert(lines_of(pieces@) =~= Set::<usize>::empty().insert(seed));
        assert(coords@ =~= assemble(lines@, pieces@));
    }
    loop
        invariant
            n == lines@.len(),
            lines_wf(lines@),
            seed < n,
            class == lines@[seed as int].property_class,
            pieces@.len() >= 1,
            pieces@[0] == (Piece { line: seed, at_front: false, reversed: false, joined: false }),
            back == back_end(pieces@),
            front == front_end(pieces@),
            back.line < n,
            front.line < n,
            coords@ == assemble(lines@, pieces@),
            coords@.len() >= 2,
            forall|p: int| 1 <= p < pieces@.len() ==> #[trigger] step_ok(lines@, before, pieces@, p),
            is_merged@.len() == n,
            forall|j: int|
                0 <= j < n ==> #[trigger] is_merged@[j] == (before + lines_of(pieces@)).contains(j as usize),
            forall|x: usize| #[trigger] lines_of(pieces@).contains(x) ==> x < n,
            !before.contains(seed),
            forall|j: usize| j < seed ==> #[trigger] before.contains(j),
        ensures
            none_eligible(lines@, class, before + lines_of(pieces@), near_of(lines@, back_end(pieces@))),
            none_eligible(lines@, class, before + lines_of(pieces@), near_of(lines@, front_end(pieces@))),
        decreases count_unmerged(is_merged@),
    {
        let ghost merged = before + lines_of(pieces@);
        let ghost old_pieces = pieces@;
        let ghost old_flags = is_merged@;
        let ghost old_coords = coords@;
        let near_back = if back.is_start {
            &lines[back.line].near_start
        } else {
            &lines[back.line].near_end
        };
        assert(near_back@ == near_of(lines@, back));
        let found_back = find_candidate(lines, is_merged, class, near_back, Ghost(merged));
        if let Some(q) = found_back {
            let e = near_back[q];
            let j = e.line;
            let back_point = if back.is_start {
                lines[back.line].start_point
            } else {
                lines[back.line].end_point
            };
            let target = if e.is_start {
                lines[j].start_point
            } else {
                lines[j].end_point
            };
            let joined = back_point == target;
            if joined {
                coords.pop_back();
            }
            push_line_back(&mut coords, j, lines[j].coord_count, !e.is_start);
            is_merged.set(j, true);
            let piece = Piece { line: j, at_front: false, reversed: !e.is_start, joined };
            pieces.push(piece);
            back = Endpoint { line: j, is_start: !e.is_start };
            proof {
                assert(pieces@.drop_last() =~= old_pieces);
                assert(pieces@.take(old_pieces.len() as int) =~= old_pieces);
                assert(piece == piece_at_back(lines@, back_end(old_pieces), near_of(lines@, back_end(old_pieces))[q as int]));
                assert(step_ok(lines@, before, pieces@, old_pieces.len() as int));
                assert forall|p: int| 1 <= p < pieces@.len() implies #[trigger] step_ok(lines@, before, pieces@, p) by {
                    if p < old_pieces.len() {
                        assert(pieces@.take(p) =~= old_pieces.take(p));
                        assert(step_ok(lines@, before, old_pieces, p));
                    }
                }
                lemma_count_unmerged_set(old_flags, j as int);
                assert(is_merged@ =~= old_flags.update(j as int, true));
                assert(lines_of(pieces@) =~= lines_of(old_pieces).insert(j));
                assert(coords@ =~= assemble(lines@, pieces@));
            }
            continue;
        }
        let near_front = if front.is_start {
            &lines[front.line].near_start
        } else {
            &lines[front.line].near_end
        };
        assert(near_front@ == near_of(lines@, front));
        let found_front = find_candidate(lines, is_merged, class, near_front, Ghost(merged));
        if let Some(q) = found_front {
            let e = near_front[q];
            let j = e.line;
            let front_point = if front.is_start {
                lines[front.line].start_point
            } else {
                lines[front.line].end_point
            };
            let target = if e.is_start {
                lines[j].start_point
            } else {
                lines[j].end_point
            };
            let joined = front_point == target;
            if joined {
                coords.pop_front();
            }
            push_line_front(&mut coords, j, lines[j].coord_count);
            is_merged.set(j, true);
            let piece = Piece { line: j, at_front: true, reversed: false, joined };
            pieces.push(piece);
            front = Endpoint { line: j, is_start: true };
            proof {
                assert(pieces@.drop_last() =~= old_pieces);
                assert(pieces@.take(old_pieces.len() as int) =~= old_pieces);
                assert(piece == piece_at_front(lines@, front_end(old_pieces), near_of(lines@, front_end(old_pieces))[q as int]));
                assert(step_ok(lines@, before, pieces@, old_pieces.len() as int));
                assert forall|p: int| 1 <= p < pieces@.len() implies #[trigger] step_ok(lines@, before, pieces@, p) by {
                    if p < old_pieces.len() {
                        assert(pieces@.take(p) =~= old_pieces.take(p));
                        assert(step_ok(lines@, before, old_pieces, p));
                    }
                }
                lemma_count_unmerged_set(old_flags, j as int);
                assert(is_merged@ =~= old_flags.update(j as int, true));
                assert(lines_of(pieces@) =~= lines_of(old_pieces).insert(j));
                assert(coords@ =~= assemble(lines@, pieces@));
            }
            continue;
        }
        break;
    }
    MergedLine { seed, pieces, coords }
}

/// Merges line strings whose endpoints lie within merging distance of each
/// other and whose properties are equal. Line strings are taken in order; each
/// not yet merged starts a merged line, which is extended at its back, else at
/// its front, by the first eligible line string near that end, until none is.
pub fn merge_line_strings(lines: &Vec<LineStringInfo>) -> (chains: Vec<MergedLine>)
    requires
        lines_wf(lines@),
    ensures
        merge_result(lines@, chains@),
{
    let n = lines.len();
    let mut is_merged: Vec<bool> = Vec::new();
    let mut s: usize = 0;
    while s < n
        invariant
            0 <= s <= n,
            is_merged@.len() == s,
            forall|t: int| 0 <= t < s ==> !#[trigger] is_merged@[t],
        decreases n - s,
    {
        is_merged.push(false);
        s = s + 1;
    }
    let mut chains: Vec<MergedLine> = Vec::new();
    let mut i: usize = 0;
    while i < n
        invariant
            n == lines@.len(),
            lines_wf(lines@),
            0 <= i <= n,
            is_merged@.len() == n,
            forall|j: int|
                0 <= j < n ==> #[trigger] is_merged@[j] == lines_of(flat_pieces(chains@)).contains(j as usize),
            forall|j: usize| j < i ==> #[trigger] lines_of(flat_pieces(chains@)).contains(j),
            forall|x: usize| #[trigger] lines_of(flat_pieces(chains@)).contains(x) ==> x < n,
            forall|c: int|
                0 <= c < chains@.len() ==> chain_correct(
                    lines@,
                    lines_of(flat_pieces(chains@.take(c))),
                    #[trigger] chains@[c],
                ),
        decreases n - i,
    {
        if !is_merged[i] {
            let ghost before = lines_of(flat_pieces(chains@));
            let ghost old_chains = chains@;
            let chain = build_chain(lines, &mut is_merged, i, Ghost(before));
            let ghost ps = chain.pieces@;
            chains.push(chain);
            proof {
                assert(chains@.drop_last() =~= old_chains);
                assert(flat_pieces(chains@) == flat_pieces(old_chains) + ps);
                lemma_lines_of_concat(flat_pieces(old_chains), ps);
                assert(chains@.take(old_chains.len() as int) =~= old_chains);
                assert forall|c: int|
                    0 <= c < chains@.len() implies chain_correct(
                        lines@,
                        lines_of(flat_pieces(chains@.take(c))),
                        #[trigger] chains@[c],
                    ) by {
                    if c < old_chains.len() {
                        assert(chains@.take(c) =~= old_chains.take(c));
                    }
                }
                lemma_lines_of_members(ps, i);
                assert(ps[0].line == i);
            }
        }
        i = i + 1;
    }
    chains
}

/// Each piece of a merged line takes a line string not merged before it:
/// neither one of `before` nor one of an earlier piece.
pub proof fn lemma_chain_takes_fresh_lines(lines: Seq<LineStringInfo>, before: Set<usize>, chain: MergedLine)
    requires
        chain_correct(lines, before, chain),
    ensures
        forall|p: int| 0 <= p < chain.pieces@.len() ==> !before.contains(#[trigger] chain.pieces@[p].line),
        forall|p: int, q: int|
            0 <= p < q < chain.pieces@.len() ==> #[trigger] chain.pieces@[p].line != #[trigger] chain.pieces@[q].line,
{
    let ps = chain.pieces@;
    let class = lines[chain.seed as int].property_class;
    assert forall|q: int| 1 <= q < ps.len() implies !(before + lines_of(ps.take(q))).contains(#[trigger] ps[q].line) by {
        assert(step_ok(lines, before, ps, q));
        let merged = before + lines_of(ps.take(q));
        let prefix = ps.take(q);
        if !ps[q].at_front {
            let near = near_of(lines, back_end(prefix));
            let w = choose|w: int|
                first_eligible(lines, class, merged, near, w) && ps[q] == piece_at_back(
                    lines,
                    back_end(prefix),
                    #[trigger] near_of(lines, back_end(prefix))[w],
                );
            assert(eligible(lines, class, merged, near[w]));
        } else {
            let near = near_of(lines, front_end(prefix));
            let w = choose|w: int|
                first_eligible(lines, class, merged, near, w) && ps[q] == piece_at_front(
                    lines,
                    front_end(prefix),
                    #[trigger] near_of(lines, front_end(prefix))[w],
                );
            assert(eligible(lines, class, merged, near[w]));
        }
    }
    assert forall|p: int| 0 <= p < ps.len() implies !before.contains(#[trigger] ps[p].line) by {
        if p > 0 {
            assert(!(before + lines_of(ps.take(p))).contains(ps[p].line));
        }
    }
    assert forall|p: int, q: int| 0 <= p < q < ps.len() implies #[trigger] ps[p].line != #[trigger] ps[q].line by {
        lemma_lines_of_members(ps.take(q), ps[p].line);
        assert(ps.take(q)[p].line == ps[p].line);
        assert(!(before + lines_of(ps.take(q))).contains(ps[q].line));
    }
}

/// A merged line joins only line strings whose properties equal those of the
/// line string it started from.
pub proof fn lemma_chain_keeps_properties(lines: Seq<LineStringInfo>, before: Set<usize>, chain: MergedLine)
    requires
        chain_correct(lines, before, chain),
    ensures
        forall|p: int|
            0 <= p < chain.pieces@.len() ==> lines[#[trigger] chain.pieces@[p].line as int].property_class
                == lines[chain.seed as int].property_class,
{
    let ps = chain.pieces@;
    let class = lines[chain.seed as int].property_class;
    assert forall|q: int| 0 <= q < ps.len() implies lines[#[trigger] ps[q].line as int].property_class == class by {
        if q > 0 {
            assert(step_ok(lines, before, ps, q));
            let merged = before + lines_of(ps.take(q));
            let prefix = ps.take(q);
            if !ps[q].at_front {
                let near = near_of(lines, back_end(prefix));
                let w = choose|w: int|
                    first_eligible(lines, class, merged, near, w) && ps[q] == piece_at_back(
                        lines,
                        back_end(prefix),
                        #[trigger] near_of(lines, back_end(prefix))[w],
                    );
                assert(eligible(lines, class, merged, near[w]));
            } else {
                let near = near_of(lines, front_end(prefix));
                let w = choose|w: int|
                    first_eligible(lines, class, merged, near, w) && ps[q] == piece_at_front(
                        lines,
                        front_end(prefix),
                        #[trigger] near_of(lines, front_end(prefix))[w],
                    );
                assert(eligible(lines, class, merged, near[w]));
            }
        }
    }
}

/// Extending the merged lines only adds taken line strings.
proof fn lemma_taken_grows(chains: Seq<MergedLine>, d: int, e: int)
    requires
        0 <= d <= e <= chains.len(),
    ensures
        lines_of(flat_pieces(chains.take(d))).subset_of(lines_of(flat_pieces(chains.take(e)))),
    decreases e - d,
{
    if d < e {
        lemma_taken_grows(chains, d, e - 1);
        assert(chains.take(e).drop_last() =~= chains.take(e - 1));
        assert(flat_pieces(chains.take(e)) == flat_pieces(chains.take(e - 1)) + chains[e - 1].pieces@);
        lemma_lines_of_concat(flat_pieces(chains.take(e - 1)), chains[e - 1].pieces@);
    }
}

/// The merged lines start from line strings in ascending order, the first from
/// the first line string; there are merged lines exactly when there are line
/// strings. Each merged line thus carries the identity of a distinct line string.
pub proof fn lemma_merged_lines_follow_their_seeds(lines: Seq<LineStringInfo>, chains: Seq<MergedLine>)
    requires
        merge_result(lines, chains),
    ensures
        chains.len() == 0 <==> lines.len() == 0,
        chains.len() > 0 ==> chains[0].seed == 0,
        forall|c1: int, c2: int| 0 <= c1 < c2 < chains.len() ==> #[trigger] chains[c1].seed < #[trigger] chains[c2].seed,
{
    if chains.len() == 0 && lines.len() > 0 {
        assert(lines_of(flat_pieces(chains)).contains(0int as usize));
    }
    if chains.len() > 0 {
        assert(chain_correct(lines, lines_of(flat_pieces(chains.take(0))), chains[0]));
        assert(chains.take(0) =~= Seq::<MergedLine>::empty());
        if chains[0].seed > 0 {
            assert(lines_of(flat_pieces(chains.take(0))).contains(0usize));
        }
    }
    assert forall|c1: int, c2: int| 0 <= c1 < c2 < chains.len() implies #[trigger] chains[c1].seed
        < #[trigger] chains[c2].seed by {
        let b1 = lines_of(flat_pieces(chains.take(c1)));
        let b2 = lines_of(flat_pieces(chains.take(c2)));
        assert(chain_correct(lines, b1, chains[c1]));
        assert(chain_correct(lines, b2, chains[c2]));
        lemma_taken_grows(chains, c1, c2);
        lemma_taken_grows(chains, c1 + 1, c2);
        assert(chains.take(c1 + 1).drop_last() =~= chains.take(c1));
        assert(flat_pieces(chains.take(c1 + 1)) == flat_pieces(chains.take(c1)) + chains[c1].pieces@);
        lemma_lines_of_concat(flat_pieces(chains.take(c1)), chains[c1].pieces@);
        lemma_lines_of_members(chains[c1].pieces@, chains[c1].seed);
        assert(chains[c1].pieces@[0].line == chains[c1].seed);
        assert(lines_of(flat_pieces(chains.take(c1 + 1))).contains(chains[c1].seed));
        assert(b2.contains(chains[c1].seed));
        if chains[c1].seed > chains[c2].seed {
            assert(b1.contains(chains[c2].seed));
        }
    }
}

/// Where every merged line is its seed alone, the line strings taken by the
/// first `k` merged lines are those below `k`, and the `c`-th starts from `c`.
#[verifier::rlimit(40)]
#[verifier::spinoff_prover]
proof fn lemma_single_piece_prefix(chains: Seq<MergedLine>, k: int)
    requires
        forall|c: int|
            0 <= c < chains.len() ==> (#[trigger] chains[c]).pieces@.len() == 1 && chains[c].pieces@[0].line
                == chains[c].seed,
        forall|c: int|
            0 <= c < chains.len() ==> !lines_of(flat_pieces(chains.take(c))).contains((#[trigger] chains[c]).seed),
        forall|c: int, j: usize|
            0 <= c < chains.len() && j < (#[trigger] chains[c]).seed ==> #[trigger] lines_of(
                flat_pieces(chains.take(c)),
            ).contains(j),
        0 <= k <= chains.len(),
    ensures
        lines_of(flat_pieces(chains.take(k))) == Set::new(|j: usize| j < k),
        forall|c: int| 0 <= c < k ==> (#[trigger] chains[c]).seed == c,
    decreases k,
{
    if k == 0 {
        assert(chains.take(0) =~= Seq::<MergedLine>::empty());
        assert(lines_of(flat_pieces(chains.take(0))) =~= Set::new(|j: usize| j < 0));
    } else {
        let i = k - 1;
        lemma_single_piece_prefix(chains, i);
        let before = lines_of(flat_pieces(chains.take(i)));
        let ch = chains[i];
        if ch.seed > i {
            assert(before.contains(i as usize));
        }
        assert(!before.contains(ch.seed));
        assert(ch.seed == i);
        assert(chains.take(k).drop_last() =~= chains.take(i));
        assert(flat_pieces(chains.take(k)) == flat_pieces(chains.take(i)) + ch.pieces@);
        lemma_lines_of_concat(flat_pieces(chains.take(i)), ch.pieces@);
        assert(ch.pieces@.drop_last() =~= Seq::<Piece>::empty());
        assert(lines_of(Seq::<Piece>::empty()) == Set::<usize>::empty());
        assert(ch.pieces@.last().line == ch.seed);
        assert(lines_of(ch.pieces@) == Set::<usize>::empty().insert(ch.seed));
        assert(lines_of(flat_pieces(chains.take(k))) =~= Set::new(|j: usize| j < k));
    }
}

/// A merged line started from a line string whose endpoints lie near no
/// endpoint of another line string is that line string alone, with its own
/// coordinates.
proof fn lemma_isolated_chain(lines: Seq<LineStringInfo>, before: Set<usize>, ch: MergedLine)
    requires
        chain_correct(lines, before, ch),
        forall|q: int| 0 <= q < lines[ch.seed as int].near_start@.len() ==> #[trigger] lines[ch.seed as int].near_start@[q].line == ch.seed,
        forall|q: int| 0 <= q < lines[ch.seed as int].near_end@.len() ==> #[trigger] lines[ch.seed as int].near_end@[q].line == ch.seed,
    ensures
        ch.pieces@.len() == 1,
        ch.pieces@[0].line == ch.seed,
        ch.coords@ == line_coords(ch.seed, lines[ch.seed as int].coord_count as nat),
{
    let ps = ch.pieces@;
    if ps.len() > 1 {
        assert(step_ok(lines, before, ps, 1));
        let prefix = ps.take(1);
        let merged = before + lines_of(prefix);
        let class = lines[ps[0].line as int].property_class;
        assert(prefix.drop_last() =~= Seq::<Piece>::empty());
        assert(lines_of(prefix).contains(ch.seed));
        assert(back_end(prefix) == Endpoint { line: ch.seed, is_start: false });
        assert(front_end(prefix) == Endpoint { line: ch.seed, is_start: true });
        if !ps[1].at_front {
            let near = near_of(lines, back_end(prefix));
            let w = choose|w: int|
                first_eligible(lines, class, merged, near, w) && ps[1] == piece_at_back(
                    lines,
                    back_end(prefix),
                    #[trigger] near_of(lines, back_end(prefix))[w],
                );
            assert(near[w].line == ch.seed);
        } else {
            let near = near_of(lines, front_end(prefix));
            let w = choose|w: int|
                first_eligible(lines, class, merged, near, w) && ps[1] == piece_at_front(
                    lines,
                    front_end(prefix),
                    #[trigger] near_of(lines, front_end(prefix))[w],
                );
            assert(near[w].line == ch.seed);
        }
    }
    assert(ps.drop_last() =~= Seq::<Piece>::empty());
    assert(assemble(lines, Seq::<Piece>::empty()) == Seq::<CoordRef>::empty());
    assert(assemble(lines, ps) =~= piece_coords(lines, ps[0]));
}

/// Line strings whose endpoints lie near no endpoint of another line string
/// pass through one by one, in order: the `k`-th merged line is the `k`-th
/// line string alone, with its own coordinates.
pub proof fn lemma_isolated_lines_pass_through(lines: Seq<LineStringInfo>, chains: Seq<MergedLine>)
    requires
        lines.len() <= usize::MAX,
        merge_result(lines, chains),
        forall|l: int, q: int|
            0 <= l < lines.len() && 0 <= q < lines[l].near_start@.len() ==> #[trigger] lines[l].near_start@[q].line == l,
        forall|l: int, q: int|
            0 <= l < lines.len() && 0 <= q < lines[l].near_end@.len() ==> #[trigger] lines[l].near_end@[q].line == l,
    ensures
        chains.len() == lines.len(),
        forall|k: int|
            0 <= k < chains.len() ==> {
                &&& (#[trigger] chains[k]).seed == k
                &&& chains[k].pieces@.len() == 1
                &&& chains[k].coords@ == line_coords(k as usize, lines[k].coord_count as nat)
            },
{
    assert forall|c: int| 0 <= c < chains.len() implies {
        &&& (#[trigger] chains[c]).pieces@.len() == 1
        &&& chains[c].pieces@[0].line == chains[c].seed
        &&& chains[c].seed < lines.len()
        &&& !lines_of(flat_pieces(chains.take(c))).contains(chains[c].seed)
        &&& forall|j: usize| j < chains[c].seed ==> #[trigger] lines_of(flat_pieces(chains.take(c))).contains(j)
        &&& chains[c].coords@ == line_coords(chains[c].seed, lines[chains[c].seed as int].coord_count as nat)
    } by {
        let before = lines_of(flat_pieces(chains.take(c)));
        assert(chain_correct(lines, before, chains[c]));
        let l = chains[c].seed as int;
        assert forall|q: int| 0 <= q < lines[l].near_start@.len() implies #[trigger] lines[l].near_start@[q].line
            == chains[c].seed by {}
        assert forall|q: int| 0 <= q < lines[l].near_end@.len() implies #[trigger] lines[l].near_end@[q].line
            == chains[c].seed by {}
        lemma_isolated_chain(lines, before, chains[c]);
    }
    lemma_single_piece_prefix(chains, chains.len() as int);
    assert(chains.take(chains.len() as int) =~= chains);
    assert(lines_of(flat_pieces(chains)) == Set::new(|j: usize| j < chains.len()));
    if lines.len() > chains.len() {
        let last: int = lines.len() - 1;
        assert(lines_of(flat_pieces(chains)).contains(last as usize));
    }
    if chains.len() > lines.len() {
        assert(chains[lines.len() as int].seed == lines.len());
    }
}

/// How a merged line takes each further line string, in terms of endpoints
/// and coordinates: at the back, the line string is met at an endpoint listed
/// near the merged line's back endpoint and is followed away from it (forward
/// when met at its start, in reverse when met at its end), and the joint is
/// dropped exactly when the two endpoints' coordinates are equal, whichever
/// endpoint it was met at; at the front, it is met at an endpoint listed near the
/// merged line's front endpoint, put in its own order, and the joint is dropped
/// exactly when that endpoint's coordinate equals the front coordinate.
pub proof fn lemma_chain_joints(lines: Seq<LineStringInfo>, before: Set<usize>, chain: MergedLine)
    requires
        chain_correct(lines, before, chain),
    ensures
        forall|p: int|
            1 <= p < chain.pieces@.len() && !(#[trigger] chain.pieces@[p]).at_front ==> {
                let back = back_end(chain.pieces@.take(p));
                let met = Endpoint { line: chain.pieces@[p].line, is_start: !chain.pieces@[p].reversed };
                &&& near_of(lines, back).contains(met)
                &&& chain.pieces@[p].joined == (endpoint_point(lines, back) == endpoint_point(lines, met))
            },
        forall|p: int|
            1 <= p < chain.pieces@.len() && (#[trigger] chain.pieces@[p]).at_front ==> {
                let front = front_end(chain.pieces@.take(p));
                &&& !chain.pieces@[p].reversed
                &&& exists|q: int|
                    0 <= q < near_of(lines, front).len() && #[trigger] near_of(lines, front)[q].line
                        == chain.pieces@[p].line && chain.pieces@[p].joined == (endpoint_point(lines, front)
                        == endpoint_point(lines, near_of(lines, front)[q]))
            },
{
    let ps = chain.pieces@;
    let class = lines[chain.seed as int].property_class;
    assert forall|p: int| 1 <= p < ps.len() implies {
        &&& (!(#[trigger] ps[p]).at_front ==> {
            let back = back_end(ps.take(p));
            let met = Endpoint { line: ps[p].line, is_start: !ps[p].reversed };
            &&& near_of(lines, back).contains(met)
            &&& ps[p].joined == (endpoint_point(lines, back) == endpoint_point(lines, met))
        })
        &&& (ps[p].at_front ==> {
            let front = front_end(ps.take(p));
            &&& !ps[p].reversed
            &&& exists|q: int|
                0 <= q < near_of(lines, front).len() && #[trigger] near_of(lines, front)[q].line == ps[p].line
                    && ps[p].joined == (endpoint_point(lines, front) == endpoint_point(lines, near_of(lines, front)[q]))
        })
    } by {
        assert(step_ok(lines, before, ps, p));
        let merged = before + lines_of(ps.take(p));
        let prefix = ps.take(p);
        if !ps[p].at_front {
            let near = near_of(lines, back_end(prefix));
            let w = choose|w: int|
                first_eligible(lines, class, merged, near, w) && ps[p] == piece_at_back(
                    lines,
                    back_end(prefix),
                    #[trigger] near_of(lines, back_end(prefix))[w],
                );
            let met = Endpoint { line: ps[p].line, is_start: !ps[p].reversed };
            assert(near[w] == met);
            assert(near.contains(met));
        } else {
            let near = near_of(lines, front_end(prefix));
            let w = choose|w: int|
                first_eligible(lines, class, merged, near, w) && ps[p] == piece_at_front(
                    lines,
                    front_end(prefix),
                    #[trigger] near_of(lines, front_end(prefix))[w],
                );
            assert(near[w].line == ps[p].line);
        }
    }
}

/// Every merged line of a merge result takes its line strings as
/// `lemma_chain_joints` describes.
pub proof fn lemma_merge_joints(lines: Seq<LineStringInfo>, chains: Seq<MergedLine>, c: int)
    requires
        merge_result(lines, chains),
        0 <= c < chains.len(),
    ensures
        forall|p: int|
            1 <= p < chains[c].pieces@.len() && !(#[trigger] chains[c].pieces@[p]).at_front ==> {
                let back = back_end(chains[c].pieces@.take(p));
                let met = Endpoint { line: chains[c].pieces@[p].line, is_start: !chains[c].pieces@[p].reversed };
                &&& near_of(lines, back).contains(met)
                &&& chains[c].pieces@[p].joined == (endpoint_point(lines, back) == endpoint_point(lines, met))
            },
{
    assert(chain_correct(lines, lines_of(flat_pieces(chains.take(c))), chains[c]));
    lemma_chain_joints(lines, lines_of(flat_pieces(chains.take(c))), chains[c]);
}

/// Merging takes every line string exactly once: the pieces of all merged lines
/// name every line string, and no two of them the same one.
pub proof fn lemma_merge_takes_each_line_once(lines: Seq<LineStringInfo>, chains: Seq<MergedLine>)
    requires
        merge_result(lines, chains),
    ensures
        forall|j: usize| j < lines.len() ==> #[trigger] lines_of(flat_pieces(chains)).contains(j),
        forall|s: int, t: int|
            0 <= s < t < flat_pieces(chains).len() ==> #[trigger] flat_pieces(chains)[s].line
                != #[trigger] flat_pieces(chains)[t].line,
{
    lemma_prefix_distinct(lines, chains, chains.len() as int);
    assert(chains.take(chains.len() as int) =~= chains);
    assert forall|j: usize| j < lines.len() implies #[trigger] lines_of(flat_pieces(chains)).contains(j) by {
        assert(lines_of(flat_pieces(chains)).contains(j as int as usize));
    }
}

proof fn lemma_prefix_distinct(lines: Seq<LineStringInfo>, chains: Seq<MergedLine>, c: int)
    requires
        0 <= c <= chains.len(),
        forall|d: int|
            0 <= d < chains.len() ==> chain_correct(lines, lines_of(flat_pieces(chains.take(d))), #[trigger] chains[d]),
    ensures
        forall|s: int, t: int|
            0 <= s < t < flat_pieces(chains.take(c)).len() ==> #[trigger] flat_pieces(chains.take(c))[s].line
                != #[trigger] flat_pieces(chains.take(c))[t].line,
    decreases c,
{
    if c > 0 {
        lemma_prefix_distinct(lines, chains, c - 1);
        let prev = flat_pieces(chains.take(c - 1));
        let ps = chains[c - 1].pieces@;
        assert(chains.take(c).drop_last() =~= chains.take(c - 1));
        assert(flat_pieces(chains.take(c)) == prev + ps);
        assert(chain_correct(lines, lines_of(prev), chains[c - 1]));
        lemma_chain_takes_fresh_lines(lines, lines_of(prev), chains[c - 1]);
        let all = prev + ps;
        assert forall|s: int, t: int| 0 <= s < t < all.len() implies #[trigger] all[s].line != #[trigger] all[t].line by {
            if t >= prev.len() && s < prev.len() {
                lemma_lines_of_members(prev, all[s].line);
                assert(prev[s].line == all[s].line);
                assert(ps[t - prev.len()] == all[t]);
            } else if s >= prev.len() {
                assert(ps[s - prev.len()] == all[s]);
                assert(ps[t - prev.len()] == all[t]);
            }
        }
    }
}

/// A feature as concatenation reads it: `Some(n)` where its geometry is a line
/// string of `n` coordinates, `None` for any other feature.
pub struct ConcatFeature {
    pub line_string_coords: Option<usize>,
}

/// A line string of two coordinates or more can be merged.
pub open spec fn is_mergeable(f: ConcatFeature) -> bool {
    match f.line_string_coords {
        Some(n) => n >= 2,
        None => false,
    }
}

/// The indices of the features that are (`want`) or are not mergeable, in order.
pub open spec fn indices_where(features: Seq<ConcatFeature>, want: bool) -> Seq<usize>
    decreases features.len(),
{
    if features.len() == 0 {
        Seq::empty()
    } else {
        indices_where(features.drop_last(), want) + if is_mergeable(features.last()) == want {
            seq![(features.len() - 1) as usize]
        } else {
            Seq::<usize>::empty()
        }
    }
}

/// Splits the features into the line strings that can be merged and all others,
/// each in the order of the collection.
pub fn split_line_strings(features: &Vec<ConcatFeature>) -> (r: (Vec<usize>, Vec<usize>))
    ensures
        r.0@ == indices_where(features@, true),
        r.1@ == indices_where(features@, false),
{
    let mut line_strings: Vec<usize> = Vec::new();
    let mut other_features: Vec<usize> = Vec::new();
    let mut i: usize = 0;
    while i < features.len()
        invariant
            0 <= i <= features@.len(),
            line_strings@ == indices_where(features@.take(i as int), true),
            other_features@ == indices_where(features@.take(i as int), false),
        decreases features@.len() - i,
    {
        let mergeable = match features[i].line_string_coords {
            Some(count) => count >= 2,
            None => false,
        };
        proof {
            assert(features@.take(i + 1).drop_last() =~= features@.take(i as int));
            assert(features@.take(i + 1).last() == features@[i as int]);
        }
        if mergeable {
            line_strings.push(i);
        } else {
            other_features.push(i);
        }
        proof {
            assert(line_strings@ =~= indices_where(features@.take(i + 1), true));
            assert(other_features@ =~= indices_where(features@.take(i + 1), false));
        }
        i = i + 1;
    }
    assert(features@.take(features@.len() as int) =~= features@);
    (line_strings, other_features)
}

/// One feature of the concatenated collection: a merged line, whose line
/// strings are numbered by their position among the mergeable features, or a
/// feature of the input, by its index, left as it was.
pub enum ConcatOutput {
    Merged(MergedLine),
    Unchanged(usize),
}

/// Concatenates the line strings of a feature collection: the merged lines
/// first, in the order of the line strings they start from (the first from the
/// first line string; none where there is no line string), then every feature
/// that is not a mergeable line string, in order. `lines[k]` describes the
/// `k`-th mergeable feature.
pub fn concatenate_features(features: &Vec<ConcatFeature>, lines: &Vec<LineStringInfo>) -> (r: Vec<ConcatOutput>)
    requires
        lines@.len() == indices_where(features@, true).len(),
        lines_wf(lines@),
    ensures
        exists|chains: Seq<MergedLine>|
            {
                &&& merge_result(lines@, chains)
                &&& (chains.len() == 0 <==> lines@.len() == 0)
                &&& (chains.len() > 0 ==> chains[0].seed == 0)
                &&& forall|c1: int, c2: int|
                    0 <= c1 < c2 < chains.len() ==> #[trigger] chains[c1].seed < #[trigger] chains[c2].seed
                &&& r@.len() == chains.len() + indices_where(features@, false).len()
                &&& forall|c: int| 0 <= c < chains.len() ==> #[trigger] r@[c] == ConcatOutput::Merged(chains[c])
                &&& forall|k: int|
                    0 <= k < indices_where(features@, false).len() ==> #[trigger] r@[chains.len() + k]
                        == ConcatOutput::Unchanged(indices_where(features@, false)[k])
            },
{
    let (_line_strings, other_features) = split_line_strings(features);
    let chains = merge_line_strings(lines);
    let ghost chain_seq = chains@;
    let mut out: Vec<ConcatOutput> = Vec::new();
    for chain in it: chains.into_iter()
        invariant
            it.seq() == chain_seq,
            out@.len() == it.index(),
            forall|c: int| 0 <= c < it.index() ==> #[trigger] out@[c] == ConcatOutput::Merged(chain_seq[c]),
    {
        out.push(ConcatOutput::Merged(chain));
    }
    let mut k: usize = 0;
    while k < other_features.len()
        invariant
            0 <= k <= other_features@.len(),
            other_features@ == indices_where(features@, false),
            out@.len() == chain_seq.len() + k,
            forall|c: int| 0 <= c < chain_seq.len() ==> #[trigger] out@[c] == ConcatOutput::Merged(chain_seq[c]),
            forall|t: int| 0 <= t < k ==> #[trigger] out@[chain_seq.len() + t] == ConcatOutput::Unchanged(
                other_features@[t],
            ),
        decreases other_features@.len() - k,
    {
        out.push(ConcatOutput::Unchanged(other_features[k]));
        k = k + 1;
    }
    proof {
        lemma_merged_lines_follow_their_seeds(lines@, chain_seq);
    }
    out
}

} // verus!
