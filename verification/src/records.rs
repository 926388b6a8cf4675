//! Documents read as records, one per line: the text of a sequence of records is each
//! record followed by a line feed. Records without line feeds are recovered from the text
//! unambiguously, so a document equal to the text of a record sequence has exactly those
//! records, in that order.
use crate::text::concat;
use vstd::prelude::*;

verus! {

/// Each record followed by a line feed.
pub open spec fn records_text(rs: Seq<Seq<char>>) -> Seq<char>
    decreases rs.len(),
{
    if rs.len() == 0 {
        Seq::empty()
    } else {
        records_text(rs.drop_last()) + rs.last() + "\n"@
    }
}

/// The records of consecutive groups, group after group.
pub open spec fn join_groups(gs: Seq<Seq<Seq<char>>>) -> Seq<Seq<char>>
    decreases gs.len(),
{
    if gs.len() == 0 {
        Seq::empty()
    } else {
        join_groups(gs.drop_last()) + gs.last()
    }
}

/// A record holds no line feed.
pub open spec fn single_line(r: Seq<char>) -> bool {
    forall|j: int| 0 <= j < r.len() ==> r[j] != '\n'
}

pub proof fn lemma_records_text_append(a: Seq<Seq<char>>, b: Seq<Seq<char>>)
    ensures
        records_text(a + b) == records_text(a) + records_text(b),
    decreases b.len(),
{
    if b.len() == 0 {
        assert(a + b =~= a);
        assert(records_text(a) + records_text(b) =~= records_text(a));
    } else {
        assert((a + b).drop_last() =~= a + b.drop_last());
        lemma_records_text_append(a, b.drop_last());
        assert(records_text(a + b) =~= records_text(a) + records_text(b));
    }
}

pub proof fn lemma_records_text_groups(gs: Seq<Seq<Seq<char>>>)
    ensures
        records_text(join_groups(gs)) == concat(gs.map_values(|g: Seq<Seq<char>>| records_text(g))),
    decreases gs.len(),
{
    if gs.len() > 0 {
        lemma_records_text_groups(gs.drop_last());
        lemma_records_text_append(join_groups(gs.drop_last()), gs.last());
        assert(gs.map_values(|g: Seq<Seq<char>>| records_text(g)).drop_last() =~= gs.drop_last().map_values(
            |g: Seq<Seq<char>>| records_text(g),
        ));
    } else {
        assert(gs.map_values(|g: Seq<Seq<char>>| records_text(g)) =~= Seq::<Seq<char>>::empty());
    }
}

/// The text of `Seq::new(n, r)` is the concatenation of each record with its line feed.
pub proof fn lemma_records_text_new(n: nat, r: spec_fn(int) -> Seq<char>)
    ensures
        records_text(Seq::new(n, r)) == concat(Seq::new(n, |i: int| r(i) + "\n"@)),
    decreases n,
{
    if n > 0 {
        lemma_records_text_new((n - 1) as nat, r);
        assert(Seq::new(n, r).drop_last() =~= Seq::new((n - 1) as nat, r));
        assert(Seq::new(n, |i: int| r(i) + "\n"@).drop_last() =~= Seq::new(
            (n - 1) as nat,
            |i: int| r(i) + "\n"@,
        ));
    } else {
        assert(Seq::new(n, r) =~= Seq::<Seq<char>>::empty());
    }
}

/// The texts of short record sequences.
pub proof fn lemma_records_text_small(a: Seq<char>, b: Seq<char>, c: Seq<char>, d: Seq<char>)
    ensures
        records_text(seq![a]) == a + "\n"@,
        records_text(seq![a, b]) == a + "\n"@ + b + "\n"@,
        records_text(seq![a, b, c]) == a + "\n"@ + b + "\n"@ + c + "\n"@,
        records_text(seq![a, b, c, d]) == a + "\n"@ + b + "\n"@ + c + "\n"@ + d + "\n"@,
{
    assert(seq![a].drop_last() =~= Seq::<Seq<char>>::empty());
    assert(seq![a, b].drop_last() =~= seq![a]);
    assert(seq![a, b, c].drop_last() =~= seq![a, b]);
    assert(seq![a, b, c, d].drop_last() =~= seq![a, b, c]);
    assert(records_text(Seq::<Seq<char>>::empty()) =~= Seq::<char>::empty());
    assert(records_text(seq![a]) =~= a + "\n"@);
    assert(records_text(seq![a, b]) =~= a + "\n"@ + b + "\n"@);
    assert(records_text(seq![a, b, c]) =~= a + "\n"@ + b + "\n"@ + c + "\n"@);
}

proof fn lemma_records_text_ends(rs: Seq<Seq<char>>)
    ensures
        rs.len() == 0 <==> records_text(rs).len() == 0,
        rs.len() > 0 ==> records_text(rs).last() == '\n',
{
    reveal_strlit("\n");
    if rs.len() > 0 {
        assert(records_text(rs) == records_text(rs.drop_last()) + rs.last() + "\n"@);
    }
}

/// The texts of short record sequences, as the lines of each record joined.
pub proof fn lemma_records_text_lines(a: Seq<char>, b: Seq<char>, c: Seq<char>, d: Seq<char>)
    ensures
        records_text(seq![a, b]) == (a + "\n"@) + (b + "\n"@),
        records_text(seq![a, b, c]) == ((a + "\n"@) + (b + "\n"@)) + (c + "\n"@),
        records_text(seq![a, b, c, d]) == ((a + "\n"@) + (b + "\n"@)) + ((c + "\n"@) + (d
            + "\n"@)),
{
    lemma_records_text_small(a, b, c, d);
    assert(records_text(seq![a, b]) =~= (a + "\n"@) + (b + "\n"@));
    assert(records_text(seq![a, b, c]) =~= ((a + "\n"@) + (b + "\n"@)) + (c + "\n"@));
    assert(records_text(seq![a, b, c, d]) =~= ((a + "\n"@) + (b + "\n"@)) + ((c + "\n"@) + (d
        + "\n"@)));
}

/// Records without line feeds are determined by their text.
pub proof fn lemma_records_text_injective(r1: Seq<Seq<char>>, r2: Seq<Seq<char>>)
    requires
        forall|k: int| 0 <= k < r1.len() ==> single_line(#[trigger] r1[k]),
        forall|k: int| 0 <= k < r2.len() ==> single_line(#[trigger] r2[k]),
        records_text(r1) == records_text(r2),
    ensures
        r1 == r2,
    decreases r1.len(),
{
    reveal_strlit("\n");
    lemma_records_text_ends(r1);
    lemma_records_text_ends(r2);
    if r1.len() == 0 {
        assert(r2.len() == 0);
        assert(r1 =~= r2);
    } else {
        assert(r2.len() > 0);
        let p1 = records_text(r1.drop_last());
        let p2 = records_text(r2.drop_last());
        let l1 = r1.last();
        let l2 = r2.last();
        let t = records_text(r1);
        assert(t == p1 + l1 + "\n"@);
        assert(t == p2 + l2 + "\n"@);
        let u = t.drop_last();
        assert(u =~= p1 + l1);
        assert(u =~= p2 + l2);
        lemma_records_text_ends(r1.drop_last());
        lemma_records_text_ends(r2.drop_last());
        assert(single_line(l1));
        assert(single_line(l2));
        if l1.len() < l2.len() {
            if p1.len() == 0 {
                assert(false);
            } else {
                let j = p1.len() - 1;
                assert(u[j] == p1[j]);
                assert(u[j] == l2[j - p2.len()]);
                assert(false);
            }
        } else if l2.len() < l1.len() {
            if p2.len() == 0 {
                assert(false);
            } else {
                let j = p2.len() - 1;
                assert(u[j] == p2[j]);
                assert(u[j] == l1[j - p1.len()]);
                assert(false);
            }
        }
        assert(l1 =~= u.subrange(p1.len() as int, u.len() as int));
        assert(l2 =~= u.subrange(p2.len() as int, u.len() as int));
        assert(p1 =~= u.subrange(0, p1.len() as int));
        assert(p2 =~= u.subrange(0, p2.len() as int));
        lemma_records_text_injective(r1.drop_last(), r2.drop_last());
        assert(r1 =~= r2.drop_last().push(l2));
        assert(r2 =~= r2.drop_last().push(l2));
    }
}

/// Concatenations of short sequences of pieces.
pub proof fn lemma_concat_small(a: Seq<char>, b: Seq<char>, c: Seq<char>, d: Seq<char>)
    ensures
        concat(seq![a, b, c]) == a + b + c,
        concat(seq![a, b, c, d]) == a + b + c + d,
{
    assert(seq![a].drop_last() =~= Seq::<Seq<char>>::empty());
    assert(seq![a, b].drop_last() =~= seq![a]);
    assert(seq![a, b, c].drop_last() =~= seq![a, b]);
    assert(seq![a, b, c, d].drop_last() =~= seq![a, b, c]);
    assert(concat(Seq::<Seq<char>>::empty()) =~= Seq::<char>::empty());
    assert(concat(seq![a]) =~= a);
    assert(concat(seq![a, b]) =~= a + b);
    assert(concat(seq![a, b, c]) =~= a + b + c);
}

/// Groups of equal size `per`: the joined records are `n * per` long, and record `s` of
/// group `i` stands at `i * per + s`.
pub proof fn lemma_join_groups_index(n: nat, per: nat, g: spec_fn(int) -> Seq<Seq<char>>)
    requires
        forall|i: int| 0 <= i < n ==> #[trigger] g(i).len() == per,
    ensures
        join_groups(Seq::new(n, g)).len() == n * per,
        forall|i: int, s: int|
            #![trigger g(i)[s]]
            0 <= i < n && 0 <= s < per ==> join_groups(Seq::new(n, g))[i * per + s] == g(i)[s],
    decreases n,
{
    if n == 0 {
        assert(join_groups(Seq::new(n, g)) =~= Seq::<Seq<char>>::empty());
    } else {
        let m = (n - 1) as nat;
        lemma_join_groups_index(m, per, g);
        assert(Seq::new(n, g).drop_last() =~= Seq::new(m, g));
        let prev = join_groups(Seq::new(m, g));
        assert(join_groups(Seq::new(n, g)) == prev + g(m as int));
        assert(n * per == m * per + per) by (nonlinear_arith)
            requires
                n == m + 1,
        ;
        assert forall|i: int, s: int|
            #![trigger g(i)[s]]
            0 <= i < n && 0 <= s < per implies join_groups(Seq::new(n, g))[i * per + s]
                == g(i)[s] by {
            if i < m {
                assert(i * per + s < m * per) by (nonlinear_arith)
                    requires
                        i < m,
                        s < per,
                        0 <= i,
                ;
                assert(0 <= i * per) by (nonlinear_arith)
                    requires
                        0 <= i,
                ;
            } else {
                assert(i * per == m * per);
            }
        }
    }
}

} // verus!
