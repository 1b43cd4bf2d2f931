use std::collections::VecDeque;
use vstd::prelude::*;
use vstd::string::StringExecFns;

verus! {

/// Head displacement after a transition.
#[derive(Clone, Copy, Debug, PartialEq, Eq, Structural)]
pub enum Move {
    L,
    R,
    N,
}

impl Move {
    /// The letter that names this move.
    pub fn letter(&self) -> (r: String)
        ensures
            r@ == move_letter(*self),
    {
        proof {
            reveal_strlit("L");
            reveal_strlit("R");
            reveal_strlit("N");
        }
        let r = match self {
            Move::L => "L".to_owned(),
            Move::R => "R".to_owned(),
            Move::N => "N".to_owned(),
        };
        assert(r@ =~= move_letter(*self));
        r
    }

    /// The move that undoes this one.
    pub open spec fn inverse(self) -> Move {
        match self {
            Move::L => Move::R,
            Move::R => Move::L,
            Move::N => Move::N,
        }
    }
}

/// The letter that names a move.
pub open spec fn move_letter(m: Move) -> Seq<char> {
    match m {
        Move::L => seq!['L'],
        Move::R => seq!['R'],
        Move::N => seq!['N'],
    }
}

/// The cells left of the head as printed: farthest first, each after a dash.
pub open spec fn left_text(l: Seq<Seq<char>>) -> Seq<char>
    decreases l.len(),
{
    if l.len() == 0 {
        Seq::empty()
    } else {
        left_text(l.drop_first()) + seq!['-'] + l[0]
    }
}

/// The cells right of the head as printed: nearest first, dash-separated.
pub open spec fn right_text(r: Seq<Seq<char>>) -> Seq<char>
    decreases r.len(),
{
    if r.len() == 0 {
        Seq::empty()
    } else if r.len() == 1 {
        r[0]
    } else {
        right_text(r.drop_last()) + seq!['-'] + r.last()
    }
}

/// The printed tape: the materialized cells in order, the head's cell in
/// brackets, between markers for the endless blank parts.
pub open spec fn tape_text(t: TapeModel) -> Seq<char> {
    seq!['-', '-'] + left_text(t.left) + seq!['['] + t.center + seq![']'] + right_text(t.right)
        + seq!['-', '-', '-']
}

/// The symbol of every cell that was never materialized.
pub open spec fn blank() -> Seq<char> {
    seq!['0']
}

/// The symbol that busy-beaver scoring counts.
pub open spec fn one() -> Seq<char> {
    seq!['1']
}

/// A run of `k` blank cells.
pub open spec fn blanks(k: nat) -> Seq<Seq<char>> {
    Seq::new(k, |i: int| blank())
}

/// Number of entries of `s` equal to `x`.
pub open spec fn count_in(s: Seq<Seq<char>>, x: Seq<char>) -> nat
    decreases s.len(),
{
    if s.len() == 0 {
        0
    } else {
        count_in(s.drop_last(), x) + if s.last() == x {
            1nat
        } else {
            0nat
        }
    }
}

/// The abstract tape: `left` and `right` hold the cells on either side of the
/// head, nearest to the head first; `center` is the cell under the head.
pub struct TapeModel {
    pub left: Seq<Seq<char>>,
    pub center: Seq<char>,
    pub right: Seq<Seq<char>>,
}

impl TapeModel {
    /// The tape after the head moves by `d`; a side with nothing left on it
    /// supplies a blank.
    pub open spec fn moved(self, d: Move) -> TapeModel {
        match d {
            Move::L => TapeModel {
                left: if self.left.len() == 0 {
                    self.left
                } else {
                    self.left.drop_first()
                },
                center: if self.left.len() == 0 {
                    blank()
                } else {
                    self.left[0]
                },
                right: seq![self.center] + self.right,
            },
            Move::R => TapeModel {
                left: seq![self.center] + self.left,
                center: if self.right.len() == 0 {
                    blank()
                } else {
                    self.right[0]
                },
                right: if self.right.len() == 0 {
                    self.right
                } else {
                    self.right.drop_first()
                },
            },
            Move::N => self,
        }
    }

    /// The tape after the head makes each move of `ms` in turn.
    pub open spec fn moved_by(self, ms: Seq<Move>) -> TapeModel
        decreases ms.len(),
    {
        if ms.len() == 0 {
            self
        } else {
            self.moved_by(ms.drop_last()).moved(ms.last())
        }
    }

    /// The tape with `s` written under the head.
    pub open spec fn written(self, s: Seq<char>) -> TapeModel {
        TapeModel { center: s, ..self }
    }

    /// Number of materialized cells that hold `x`.
    pub open spec fn census(self, x: Seq<char>) -> nat {
        count_in(self.left, x) + (if self.center == x {
            1nat
        } else {
            0nat
        }) + count_in(self.right, x)
    }

    /// `u` is this tape with zero or more blanks materialized past each end.
    pub open spec fn padded_to(self, u: TapeModel) -> bool {
        &&& u.center == self.center
        &&& exists|k: nat| u.left == self.left + #[trigger] blanks(k)
        &&& exists|k: nat| u.right == self.right + #[trigger] blanks(k)
    }
}

/// The move sequence that retraces `ms` back to where it started.
pub open spec fn retrace(ms: Seq<Move>) -> Seq<Move>
    decreases ms.len(),
{
    if ms.len() == 0 {
        ms
    } else {
        seq![ms.last().inverse()] + retrace(ms.drop_last())
    }
}

/// A tape with a head that moves over an unbounded row of cells.
pub struct Tape {
    left: VecDeque<String>,
    center: String,
    right: VecDeque<String>,
}

impl View for Tape {
    type V = TapeModel;

    closed spec fn view(&self) -> TapeModel {
        TapeModel {
            left: self.left@.map_values(|s: String| s@),
            center: self.center@,
            right: self.right@.map_values(|s: String| s@),
        }
    }
}

impl Tape {
    /// A tape whose head reads `center`, with `left` and `right` listing the
    /// cells on either side of it, nearest to the head first.
    pub fn new(left: Vec<String>, center: String, right: Vec<String>) -> (r: Tape)
        ensures
            r@ == (TapeModel {
                left: left@.map_values(|s: String| s@),
                center: center@,
                right: right@.map_values(|s: String| s@),
            }),
    {
        let l = deque_of(&left);
        let r = deque_of(&right);
        let t = Tape { left: l, center, right: r };
        assert(t@.left =~= left@.map_values(|s: String| s@));
        assert(t@.right =~= right@.map_values(|s: String| s@));
        t
    }

    /// The symbol under the head.
    pub fn read(&self) -> (r: &String)
        ensures
            r@ == self@.center,
    {
        &self.center
    }

    /// Replace the symbol under the head by `s`.
    pub fn write(&mut self, s: String)
        ensures
            final(self)@ == old(self)@.written(s@),
    {
        self.center = s;
    }

    /// The cells left of the head, nearest first.
    pub fn left(&self) -> (r: &VecDeque<String>)
        ensures
            r@.map_values(|s: String| s@) == self@.left,
    {
        &self.left
    }

    /// The cells right of the head, nearest first.
    pub fn right(&self) -> (r: &VecDeque<String>)
        ensures
            r@.map_values(|s: String| s@) == self@.right,
    {
        &self.right
    }

    /// Number of materialized cells that hold `target`; cells that were never
    /// reached are not counted.
    pub fn census(&self, target: &String) -> (r: u128)
        ensures
            r == self@.census(target@),
    {
        let l = count_matching(&self.left, target);
        let c: u128 = if self.center == *target {
            1
        } else {
            0
        };
        let r = count_matching(&self.right, target);
        l + c + r
    }

    /// Number of materialized cells that hold a one.
    pub fn count1s(&mut self) -> (r: u128)
        ensures
            r == old(self)@.census(one()),
            *final(self) == *old(self),
    {
        proof {
            reveal_strlit("1");
        }
        let one_symbol = "1".to_owned();
        assert(one_symbol@ =~= one());
        self.census(&one_symbol)
    }

    /// The tape as a line of text, for display.
    pub fn render(&self) -> (r: String)
        ensures
            r@ == tape_text(self@),
    {
        let ghost l = self@.left;
        let ghost rt = self@.right;
        proof {
            reveal_strlit("--");
            reveal_strlit("-");
            reveal_strlit("[");
            reveal_strlit("]");
            reveal_strlit("---");
        }
        let mut text = String::new();
        text.append("--");
        let mut i: usize = self.left.len();
        assert(l.subrange(i as int, l.len() as int) =~= Seq::<Seq<char>>::empty());
        while i > 0
            invariant
                l == self@.left,
                i <= l.len(),
                text@ == seq!['-', '-'] + left_text(l.subrange(i as int, l.len() as int)),
            decreases i,
        {
            assert(l.subrange(i - 1, l.len() as int).drop_first() =~= l.subrange(
                i as int,
                l.len() as int,
            ));
            proof {
                reveal_strlit("-");
            }
            assert("-"@ =~= seq!['-']);
            assert(self.left@[i - 1]@ == l[i - 1]);
            text.append("-");
            text.append(self.left[i - 1].as_str());
            i = i - 1;
            assert(text@ =~= seq!['-', '-'] + left_text(l.subrange(i as int, l.len() as int)));
        }
        assert(l.subrange(0, l.len() as int) =~= l);
        text.append("[");
        text.append(self.center.as_str());
        text.append("]");
        let ghost head = text@;
        let mut j: usize = 0;
        while j < self.right.len()
            invariant
                rt == self@.right,
                j <= rt.len(),
                text@ == head + right_text(rt.subrange(0, j as int)),
            decreases rt.len() - j,
        {
            assert(rt.subrange(0, j + 1).drop_last() =~= rt.subrange(0, j as int));
            proof {
                reveal_strlit("-");
            }
            assert("-"@ =~= seq!['-']);
            assert(self.right@[j as int]@ == rt[j as int]);
            if j > 0 {
                text.append("-");
            }
            text.append(self.right[j].as_str());
            j = j + 1;
            assert(text@ =~= head + right_text(rt.subrange(0, j as int)));
        }
        assert(rt.subrange(0, rt.len() as int) =~= rt);
        text.append("---");
        assert(text@ =~= tape_text(self@));
        text
    }

    /// Move the head one cell by `dir`. The cell that was under the head is
    /// kept on the side that the head leaves.
    pub fn mov(&mut self, dir: Move)
        ensures
            final(self)@ == old(self)@.moved(dir),
    {
        let ghost t0 = self@;
        match dir {
            Move::L => {
                let c = self.center.clone();
                self.right.push_front(c);
                self.center = match self.left.pop_front() {
                    Some(x) => x,
                    None => blank_symbol(),
                };
            },
            Move::R => {
                let c = self.center.clone();
                self.left.push_front(c);
                self.center = match self.right.pop_front() {
                    Some(x) => x,
                    None => blank_symbol(),
                };
            },
            Move::N => {},
        }
        assert(self@.left =~= t0.moved(dir).left);
        assert(self@.right =~= t0.moved(dir).right);
    }
}

proof fn lemma_blanks_add(a: nat, b: nat)
    ensures
        blanks(a) + blanks(b) == blanks(a + b),
{
    assert(blanks(a) + blanks(b) =~= blanks(a + b));
}

proof fn lemma_padded_refl(t: TapeModel)
    ensures
        t.padded_to(t),
{
    assert(t.left =~= t.left + blanks(0));
    assert(t.right =~= t.right + blanks(0));
}

proof fn lemma_padded_trans(t: TapeModel, u: TapeModel, v: TapeModel)
    requires
        t.padded_to(u),
        u.padded_to(v),
    ensures
        t.padded_to(v),
{
    let a = choose|k: nat| u.left == t.left + #[trigger] blanks(k);
    let b = choose|k: nat| v.left == u.left + #[trigger] blanks(k);
    let c = choose|k: nat| u.right == t.right + #[trigger] blanks(k);
    let d = choose|k: nat| v.right == u.right + #[trigger] blanks(k);
    lemma_blanks_add(a, b);
    lemma_blanks_add(c, d);
    assert(v.left =~= t.left + blanks(a + b));
    assert(v.right =~= t.right + blanks(c + d));
}

/// Moving two tapes alike keeps one a padding of the other.
proof fn lemma_padded_moved(t: TapeModel, u: TapeModel, d: Move)
    requires
        t.padded_to(u),
    ensures
        t.moved(d).padded_to(u.moved(d)),
{
    let a = choose|k: nat| u.left == t.left + #[trigger] blanks(k);
    let c = choose|k: nat| u.right == t.right + #[trigger] blanks(k);
    let (tm, um) = (t.moved(d), u.moved(d));
    match d {
        Move::L => {
            assert(um.right =~= tm.right + blanks(c));
            if t.left.len() == 0 {
                if a == 0 {
                    assert(um.left =~= tm.left + blanks(0));
                } else {
                    assert(um.left =~= tm.left + blanks((a - 1) as nat));
                }
            } else {
                assert(um.left =~= tm.left + blanks(a));
            }
        },
        Move::R => {
            assert(um.left =~= tm.left + blanks(a));
            if t.right.len() == 0 {
                if c == 0 {
                    assert(um.right =~= tm.right + blanks(0));
                } else {
                    assert(um.right =~= tm.right + blanks((c - 1) as nat));
                }
            } else {
                assert(um.right =~= tm.right + blanks(c));
            }
        },
        Move::N => {},
    }
}

/// A move followed by its inverse returns to the start, at most one blank
/// materialized.
proof fn lemma_move_back(t: TapeModel, d: Move)
    ensures
        t.padded_to(t.moved(d).moved(d.inverse())),
{
    let u = t.moved(d).moved(d.inverse());
    match d {
        Move::L => {
            assert(u.right =~= t.right + blanks(0));
            if t.left.len() == 0 {
                assert(u.left =~= t.left + blanks(1));
            } else {
                assert(u.left =~= t.left + blanks(0));
            }
        },
        Move::R => {
            assert(u.left =~= t.left + blanks(0));
            if t.right.len() == 0 {
                assert(u.right =~= t.right + blanks(1));
            } else {
                assert(u.right =~= t.right + blanks(0));
            }
        },
        Move::N => lemma_padded_refl(t),
    }
}

proof fn lemma_moved_by_concat(t: TapeModel, a: Seq<Move>, b: Seq<Move>)
    ensures
        t.moved_by(a + b) == t.moved_by(a).moved_by(b),
    decreases b.len(),
{
    if b.len() == 0 {
        assert(a + b =~= a);
    } else {
        assert((a + b).drop_last() =~= a + b.drop_last());
        lemma_moved_by_concat(t, a, b.drop_last());
    }
}

proof fn lemma_padded_moved_by(t: TapeModel, u: TapeModel, ms: Seq<Move>)
    requires
        t.padded_to(u),
    ensures
        t.moved_by(ms).padded_to(u.moved_by(ms)),
    decreases ms.len(),
{
    if ms.len() > 0 {
        lemma_padded_moved_by(t, u, ms.drop_last());
        lemma_padded_moved(t.moved_by(ms.drop_last()), u.moved_by(ms.drop_last()), ms.last());
    }
}

proof fn lemma_count_blanks(s: Seq<Seq<char>>, k: nat, x: Seq<char>)
    requires
        x != blank(),
    ensures
        count_in(s + blanks(k), x) == count_in(s, x),
    decreases k,
{
    if k == 0 {
        assert(s + blanks(0) =~= s);
    } else {
        assert((s + blanks(k)).drop_last() =~= s + blanks((k - 1) as nat));
        lemma_count_blanks(s, (k - 1) as nat, x);
    }
}

/// Padding a tape with blanks changes the count of no other symbol.
pub proof fn lemma_padded_census(t: TapeModel, u: TapeModel, x: Seq<char>)
    requires
        t.padded_to(u),
        x != blank(),
    ensures
        u.census(x) == t.census(x),
{
    let a = choose|k: nat| u.left == t.left + #[trigger] blanks(k);
    let c = choose|k: nat| u.right == t.right + #[trigger] blanks(k);
    lemma_count_blanks(t.left, a, x);
    lemma_count_blanks(t.right, c, x);
}

/// Any sequence of moves followed by the moves that retrace it brings the head
/// back to its cell with every materialized cell as it was; the only change is
/// blanks materialized past the ends, so no other symbol's census changes.
pub proof fn lemma_move_round_trip(t: TapeModel, ms: Seq<Move>)
    ensures
        t.padded_to(t.moved_by(ms + retrace(ms))),
        forall|x: Seq<char>|
            x != blank() ==> #[trigger] t.moved_by(ms + retrace(ms)).census(x) == t.census(x),
    decreases ms.len(),
{
    if ms.len() == 0 {
        assert(ms + retrace(ms) =~= ms);
        lemma_padded_refl(t);
    } else {
        let init = ms.drop_last();
        let d = ms.last();
        let a = t.moved_by(init);
        lemma_move_round_trip(t, init);
        lemma_moved_by_concat(t, init, retrace(init));
        assert(ms + retrace(ms) =~= init + seq![d, d.inverse()] + retrace(init));
        lemma_moved_by_concat(t, init + seq![d, d.inverse()], retrace(init));
        lemma_moved_by_concat(t, init, seq![d, d.inverse()]);
        assert(seq![d, d.inverse()].drop_last() =~= seq![d]);
        assert(seq![d].drop_last() =~= Seq::<Move>::empty());
        assert(a.moved_by(Seq::<Move>::empty()) == a);
        assert(seq![d].last() == d);
        assert(a.moved_by(seq![d]) == a.moved(d));
        assert(seq![d, d.inverse()].last() == d.inverse());
        assert(a.moved_by(seq![d, d.inverse()]) == a.moved(d).moved(d.inverse()));
        lemma_move_back(a, d);
        lemma_padded_moved_by(a, a.moved(d).moved(d.inverse()), retrace(init));
        lemma_padded_trans(t, a.moved_by(retrace(init)), t.moved_by(ms + retrace(ms)));
    }
    assert forall|x: Seq<char>| x != blank() implies #[trigger] t.moved_by(ms + retrace(
        ms,
    )).census(x) == t.census(x) by {
        lemma_padded_census(t, t.moved_by(ms + retrace(ms)), x);
    }
}

/// Writing `s` under the head adds one to the census of `s` and takes one
/// from the census of the symbol it replaces; writing the same symbol changes
/// nothing.
pub proof fn lemma_write_census(t: TapeModel, s: Seq<char>, x: Seq<char>)
    ensures
        t.written(s).census(x) as int == t.census(x) as int - (if t.center == x {
            1int
        } else {
            0int
        }) + (if s == x {
            1int
        } else {
            0int
        }),
        s == t.center ==> t.written(s).census(x) == t.census(x),
{
}

/// A deque holding copies of the items of `v`, in order.
fn deque_of(v: &Vec<String>) -> (r: VecDeque<String>)
    ensures
        r@ == v@,
{
    let mut d: VecDeque<String> = VecDeque::new();
    let mut i: usize = 0;
    while i < v.len()
        invariant
            i <= v@.len(),
            d@ == v@.subrange(0, i as int),
        decreases v@.len() - i,
    {
        d.push_back(v[i].clone());
        i = i + 1;
        assert(d@ =~= v@.subrange(0, i as int));
    }
    assert(d@ =~= v@);
    d
}

/// Number of items of `d` equal to `target`.
fn count_matching(d: &VecDeque<String>, target: &String) -> (r: u128)
    ensures
        r == count_in(d@.map_values(|s: String| s@), target@),
        r <= usize::MAX,
{
    let ghost cells = d@.map_values(|s: String| s@);
    let mut n: u128 = 0;
    let mut i: usize = 0;
    while i < d.len()
        invariant
            cells == d@.map_values(|s: String| s@),
            i <= d@.len(),
            n <= i,
            n == count_in(cells.subrange(0, i as int), target@),
        decreases d@.len() - i,
    {
        assert(cells.subrange(0, i + 1).drop_last() =~= cells.subrange(0, i as int));
        if d[i] == *target {
            n = n + 1;
        }
        i = i + 1;
    }
    assert(cells.subrange(0, i as int) =~= cells);
    n
}

/// A fresh blank symbol.
fn blank_symbol() -> (r: String)
    ensures
        r@ == blank(),
{
    proof {
        reveal_strlit("0");
    }
    "0".to_owned()
}

} // verus!
