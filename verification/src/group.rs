//! What friends learning together keep track of: the topics they shared,
//! which pairs of members can be compared, and who to study with.

use vstd::prelude::*;
use crate::registry::{has_name, Registry};

verus! {

/// The topic names, read as characters.
pub open spec fn names_of(topics: Seq<String>) -> Seq<Seq<char>> {
    topics.map_values(|t: String| t@)
}

/// The topic list after noting `topic`: unchanged where it is already
/// listed, otherwise with the topic added last.
pub open spec fn noted(topics: Seq<Seq<char>>, topic: Seq<char>) -> Seq<Seq<char>> {
    if topics.contains(topic) {
        topics
    } else {
        topics.push(topic)
    }
}

/// Notes that a topic was studied together, listing it once.
pub fn note_topic(topics: &mut Vec<String>, topic: &str)
    ensures
        names_of(final(topics)@) == noted(names_of(old(topics)@), topic@),
{
    let key = String::from_str(topic);
    let n = topics.len();
    let mut i: usize = 0;
    while i < n
        invariant
            n == topics@.len(),
            i <= n,
            key@ == topic@,
            forall|j: int| 0 <= j < i ==> names_of(topics@)[j] != topic@,
        decreases n - i,
    {
        if topics[i] == key {
            proof { assert(names_of(topics@)[i as int] == topic@); }
            return;
        }
        i = i + 1;
    }
    let ghost before = names_of(topics@);
    topics.push(key);
    proof {
        assert(!before.contains(topic@));
        assert(names_of(topics@) =~= before.push(topic@));
    }
}

/// A learning group: friends iterating together, with the state they build
/// up as a group (`L`).
#[derive(Debug, Clone)]
pub struct LearningGroup<L> {
    pub id: String,
    pub members: Vec<String>,
    pub shared_topics: Vec<String>,
    pub group_vibration: L,
    pub iterations_together: u32,
}

impl<L> LearningGroup<L> {
    /// A group that has not studied anything together yet.
    pub fn new(id: &str, members: Vec<String>, fresh: L) -> (g: Self)
        ensures
            g.id@ == id@,
            g.members == members,
            g.shared_topics@ == Seq::<String>::empty(),
            g.group_vibration == fresh,
            g.iterations_together == 0,
    {
        LearningGroup {
            id: String::from_str(id),
            members,
            shared_topics: Vec::new(),
            group_vibration: fresh,
            iterations_together: 0,
        }
    }

    /// Starts a session together on a topic: counts it, and notes the topic
    /// as shared.
    pub fn begin_session(&mut self, topic: &str)
        requires
            old(self).iterations_together < u32::MAX,
        ensures
            final(self).iterations_together == old(self).iterations_together + 1,
            names_of(final(self).shared_topics@) == noted(names_of(old(self).shared_topics@), topic@),
            final(self).id == old(self).id,
            final(self).members == old(self).members,
            final(self).group_vibration == old(self).group_vibration,
    {
        self.iterations_together = self.iterations_together + 1;
        note_topic(&mut self.shared_topics, topic);
    }
}

/// The pairs `(i, k)` with `i < k < j` for which both members are known,
/// in ascending order of `k`.
pub open spec fn pairs_in_row(known: spec_fn(int) -> bool, i: int, j: int) -> Seq<(usize, usize)>
    decreases j - i,
{
    if j <= i + 1 {
        Seq::empty()
    } else {
        let before = pairs_in_row(known, i, j - 1);
        if known(i) && known(j - 1) {
            before.push((i as usize, (j - 1) as usize))
        } else {
            before
        }
    }
}

/// The pairs `(a, b)` with `a < b < n` and `a < i` for which both members
/// are known, in ascending order.
pub open spec fn pairs_before(known: spec_fn(int) -> bool, n: int, i: int) -> Seq<(usize, usize)>
    decreases i,
{
    if i <= 0 {
        Seq::empty()
    } else {
        pairs_before(known, n, i - 1) + pairs_in_row(known, i - 1, n)
    }
}

/// Whether the member at a position is registered.
pub open spec fn member_known<V>(members: Seq<String>, registry: Seq<(Seq<char>, V)>) -> spec_fn(int) -> bool {
    |i: int| has_name(registry, members[i]@)
}

/// The pairs of members that are both registered, each pair once with the
/// earlier member first, in ascending order.
pub fn registered_pairs<V>(members: &Vec<String>, registry: &Registry<V>) -> (r: Vec<(usize, usize)>)
    ensures
        r@ == pairs_before(member_known(members@, registry@), members@.len() as int, members@.len() as int),
        forall|p: (usize, usize)| #![trigger r@.contains(p)]
            r@.contains(p) <==> (p.0 < p.1 < members@.len()
                && has_name(registry@, members@[p.0 as int]@) && has_name(registry@, members@[p.1 as int]@)),
        forall|a: int, b: int| 0 <= a < b < r@.len() ==> pair_before(#[trigger] r@[a], #[trigger] r@[b]),
{
    let n = members.len();
    let ghost known = member_known(members@, registry@);
    let mut r: Vec<(usize, usize)> = Vec::new();
    let mut i: usize = 0;
    while i < n
        invariant
            n == members@.len(),
            i <= n,
            known == member_known(members@, registry@),
            r@ == pairs_before(known, n as int, i as int),
        decreases n - i,
    {
        let first = registry.contains_key(members[i].as_str());
        let mut j: usize = i + 1;
        let ghost start = r@;
        while j < n
            invariant
                n == members@.len(),
                i < n,
                i + 1 <= j <= n,
                known == member_known(members@, registry@),
                first == known(i as int),
                start == pairs_before(known, n as int, i as int),
                r@ == start + pairs_in_row(known, i as int, j as int),
            decreases n - j,
        {
            if first && registry.contains_key(members[j].as_str()) {
                r.push((i, j));
                proof {
                    assert(start + pairs_in_row(known, i as int, (j + 1) as int)
                        =~= start + pairs_in_row(known, i as int, j as int).push((i, j)));
                }
            }
            j = j + 1;
        }
        i = i + 1;
    }
    proof {
        law_pairs(known, n as int);
    }
    r
}

/// The friend got stuck on the topic at least once.
pub open spec fn struggled(stuck_count: Option<u32>) -> bool {
    stuck_count matches Some(c) && c > 0
}

/// Among friends ranked by how close they are, the first who got stuck on
/// the topic at least once: `stuck_counts` holds, for each friend, how often
/// they got stuck on it, or `None` where they never touched it.
pub fn first_stuck(stuck_counts: &Vec<Option<u32>>) -> (r: Option<usize>)
    ensures
        match r {
            Some(i) => i < stuck_counts@.len() && struggled(stuck_counts@[i as int])
                && forall|j: int| 0 <= j < i ==> !struggled(#[trigger] stuck_counts@[j]),
            None => forall|j: int| 0 <= j < stuck_counts@.len() ==> !struggled(#[trigger] stuck_counts@[j]),
        },
        r matches Some(i) ==> (stuck_counts@[i as int] matches Some(c) ==> c > 0) && stuck_counts@[i as int] is Some,
        r matches Some(i) ==> forall|j: int| 0 <= j < i ==> (#[trigger] stuck_counts@[j] matches Some(c) ==> c == 0),
        r is None ==> forall|j: int| 0 <= j < stuck_counts@.len() ==> (#[trigger] stuck_counts@[j] matches Some(c) ==> c == 0),
{
    let n = stuck_counts.len();
    let mut i: usize = 0;
    while i < n
        invariant
            n == stuck_counts@.len(),
            i <= n,
            forall|j: int| 0 <= j < i ==> !struggled(#[trigger] stuck_counts@[j]),
        decreases n - i,
    {
        match stuck_counts[i] {
            Some(c) => {
                if c > 0 {
                    return Some(i);
                }
            },
            None => {},
        }
        i = i + 1;
    }
    None
}

/// Noting a topic a second time changes nothing.
pub proof fn law_note_idempotent(topics: Seq<Seq<char>>, topic: Seq<char>)
    ensures
        noted(noted(topics, topic), topic) == noted(topics, topic),
        noted(topics, topic).contains(topic),
{
    if !topics.contains(topic) {
        assert(noted(topics, topic)[topics.len() as int] == topic);
    }
}

/// Noting topics never lists a topic twice.
pub proof fn law_note_keeps_topics_distinct(topics: Seq<Seq<char>>, topic: Seq<char>)
    requires
        topics.no_duplicates(),
    ensures
        noted(topics, topic).no_duplicates(),
{
}

proof fn lemma_row_len(known: spec_fn(int) -> bool, i: int, j: int)
    requires
        forall|k: int| #[trigger] known(k),
        i + 1 <= j,
    ensures
        pairs_in_row(known, i, j).len() == j - i - 1,
    decreases j - i,
{
    if j > i + 1 {
        assert(known(i) && known(j - 1));
        lemma_row_len(known, i, j - 1);
    }
}

proof fn lemma_before_len(known: spec_fn(int) -> bool, n: int, i: int)
    requires
        forall|k: int| #[trigger] known(k),
        0 <= i <= n,
    ensures
        2 * pairs_before(known, n, i).len() == 2 * i * n - i * (i + 1),
    decreases i,
{
    if i > 0 {
        lemma_before_len(known, n, i - 1);
        lemma_row_len(known, i - 1, n);
        assert(pairs_before(known, n, i) == pairs_before(known, n, i - 1) + pairs_in_row(known, i - 1, n));
        let a = pairs_before(known, n, i - 1).len() as int;
        let b = pairs_before(known, n, i).len() as int;
        assert(b == a + (n - i));
        assert(2 * b == 2 * i * n - i * (i + 1)) by (nonlinear_arith)
            requires
                2 * a == 2 * (i - 1) * n - (i - 1) * i,
                b == a + (n - i);
    } else {
        assert(2 * i * n - i * (i + 1) == 0) by (nonlinear_arith)
            requires
                i == 0;
    }
}

/// When every member is registered, each of the `n * (n - 1) / 2` pairs of
/// members is compared exactly once.
pub proof fn law_all_pairs(known: spec_fn(int) -> bool, n: int)
    requires
        forall|k: int| #[trigger] known(k),
        0 <= n,
    ensures
        pairs_before(known, n, n).len() == n * (n - 1) / 2,
{
    lemma_before_len(known, n, n);
    assert(2 * n * n - n * (n + 1) == n * (n - 1)) by (nonlinear_arith);
}

/// One pair comes before another: by first member, then by second.
pub open spec fn pair_before(p: (usize, usize), q: (usize, usize)) -> bool {
    p.0 < q.0 || (p.0 == q.0 && p.1 < q.1)
}

proof fn lemma_row_members(known: spec_fn(int) -> bool, i: int, j: int)
    requires
        0 <= i,
        j <= usize::MAX,
    ensures
        forall|p: (usize, usize)| #![trigger pairs_in_row(known, i, j).contains(p)]
            pairs_in_row(known, i, j).contains(p)
                <==> (p.0 == i && i < p.1 < j && known(i) && known(p.1 as int)),
        forall|a: int, b: int| 0 <= a < b < pairs_in_row(known, i, j).len()
            ==> pair_before(#[trigger] pairs_in_row(known, i, j)[a], #[trigger] pairs_in_row(known, i, j)[b]),
    decreases j - i,
{
    if j > i + 1 {
        lemma_row_members(known, i, j - 1);
        let before = pairs_in_row(known, i, j - 1);
        let row = pairs_in_row(known, i, j);
        if known(i) && known(j - 1) {
            let last = (i as usize, (j - 1) as usize);
            assert(row == before.push(last));
            assert forall|p: (usize, usize)| #[trigger] row.contains(p)
                <==> (p.0 == i && i < p.1 < j && known(i) && known(p.1 as int)) by {
                if row.contains(p) {
                    let w = choose|w: int| 0 <= w < row.len() && row[w] == p;
                    if w < before.len() {
                        assert(before[w] == p);
                        assert(before.contains(p));
                    }
                }
                if p.0 == i && i < p.1 < j && known(i) && known(p.1 as int) {
                    if p.1 == j - 1 {
                        assert(row[before.len() as int] == p);
                    } else {
                        assert(before.contains(p));
                        let w = choose|w: int| 0 <= w < before.len() && before[w] == p;
                        assert(row[w] == p);
                    }
                }
            }
            assert forall|a: int, b: int| 0 <= a < b < row.len()
                implies pair_before(#[trigger] row[a], #[trigger] row[b]) by {
                assert(row[a] == before[a]);
                assert(before.contains(before[a]));
                if b < before.len() {
                    assert(row[b] == before[b]);
                }
            }
        } else {
            assert(row == before);
        }
    }
}

proof fn lemma_before_members(known: spec_fn(int) -> bool, n: int, i: int)
    requires
        0 <= i,
        n <= usize::MAX,
    ensures
        forall|p: (usize, usize)| #![trigger pairs_before(known, n, i).contains(p)]
            pairs_before(known, n, i).contains(p)
                <==> (p.0 < i && p.0 < p.1 < n && known(p.0 as int) && known(p.1 as int)),
        forall|a: int, b: int| 0 <= a < b < pairs_before(known, n, i).len()
            ==> pair_before(#[trigger] pairs_before(known, n, i)[a], #[trigger] pairs_before(known, n, i)[b]),
    decreases i,
{
    if i > 0 {
        lemma_before_members(known, n, i - 1);
        lemma_row_members(known, i - 1, n);
        let front = pairs_before(known, n, i - 1);
        let row = pairs_in_row(known, i - 1, n);
        let all = pairs_before(known, n, i);
        assert(all == front + row);
        assert forall|p: (usize, usize)| #[trigger] all.contains(p)
            <==> (p.0 < i && p.0 < p.1 < n && known(p.0 as int) && known(p.1 as int)) by {
            if all.contains(p) {
                let w = choose|w: int| 0 <= w < all.len() && all[w] == p;
                if w < front.len() {
                    assert(front[w] == p);
                    assert(front.contains(p));
                } else {
                    assert(row[w - front.len()] == p);
                    assert(row.contains(p));
                }
            }
            if p.0 < i && p.0 < p.1 < n && known(p.0 as int) && known(p.1 as int) {
                if p.0 < i - 1 {
                    assert(front.contains(p));
                    let w = choose|w: int| 0 <= w < front.len() && front[w] == p;
                    assert(all[w] == p);
                } else {
                    assert(row.contains(p));
                    let w = choose|w: int| 0 <= w < row.len() && row[w] == p;
                    assert(all[front.len() + w] == p);
                }
            }
        }
        assert forall|a: int, b: int| 0 <= a < b < all.len()
            implies pair_before(#[trigger] all[a], #[trigger] all[b]) by {
            if b < front.len() {
                assert(all[a] == front[a]);
                assert(all[b] == front[b]);
            } else if a >= front.len() {
                assert(all[a] == row[a - front.len()]);
                assert(all[b] == row[b - front.len()]);
            } else {
                assert(all[a] == front[a]);
                assert(front.contains(front[a]));
                assert(all[b] == row[b - front.len()]);
                assert(row.contains(row[b - front.len()]));
            }
        }
    }
}

/// The pairs listed are exactly the pairs `(a, b)` with `a < b < n` whose
/// members are both known, each once, ordered by first member and then by
/// second (for any `n` a position can reach).
pub proof fn law_pairs(known: spec_fn(int) -> bool, n: int)
    requires
        n <= usize::MAX,
    ensures
        forall|p: (usize, usize)| #![trigger pairs_before(known, n, n).contains(p)]
            pairs_before(known, n, n).contains(p)
                <==> (p.0 < p.1 < n && known(p.0 as int) && known(p.1 as int)),
        forall|a: int, b: int| 0 <= a < b < pairs_before(known, n, n).len()
            ==> pair_before(#[trigger] pairs_before(known, n, n)[a], #[trigger] pairs_before(known, n, n)[b]),
{
    if n >= 0 {
        lemma_before_members(known, n, n);
    }
}

/// A friend struggled exactly when they got stuck on the topic a positive
/// number of times; a friend who never touched it did not.
pub proof fn law_struggled(stuck_count: Option<u32>)
    ensures
        stuck_count is None ==> !struggled(stuck_count),
        stuck_count matches Some(c) ==> (struggled(stuck_count) <==> c > 0),
{
}

/// A member counts as known exactly when their name is registered,
/// whoever the other members are.
pub proof fn law_member_known<V>(members: Seq<String>, registry: Seq<(Seq<char>, V)>, i: int)
    ensures
        member_known(members, registry)(i) <==> has_name(registry, members[i]@),
{
}

/// Noting a topic keeps every listed topic in its place, lists the topic,
/// and adds an entry exactly when the topic was not listed yet.
pub proof fn law_noted_extends(topics: Seq<Seq<char>>, topic: Seq<char>)
    ensures
        noted(topics, topic).len() == topics.len() + if topics.contains(topic) { 0int } else { 1int },
        forall|i: int| 0 <= i < topics.len() ==> #[trigger] noted(topics, topic)[i] == topics[i],
        noted(topics, topic).contains(topic),
{
    law_note_idempotent(topics, topic);
}

/// The names of a topic list are its topics' texts, one for one.
pub proof fn law_names_of(topics: Seq<String>)
    ensures
        names_of(topics).len() == topics.len(),
        forall|i: int| 0 <= i < topics.len() ==> #[trigger] names_of(topics)[i] == topics[i]@,
{
}

} // verus!
