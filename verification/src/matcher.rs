//! Typo-tolerant messages for topics that the cluster does not have.

use crate::style::Highlighting;
use crate::text::{append_decimal, decimal, names_of};
use vstd::prelude::*;
use vstd::string::*;

verus! {

/// A closest topic at most this far from the requested name is offered alone.
pub const MAX_DISTANCE: usize = 4;

/// No listing shows more topics than this.
pub const MAX_TOPICS: usize = 15;

/// The least of three numbers.
pub open spec fn min3(a: nat, b: nat, c: nat) -> nat {
    if a <= b && a <= c {
        a
    } else if b <= c {
        b
    } else {
        c
    }
}

/// The edit distance of two texts: the least number of single-character
/// insertions, deletions and substitutions that turn `a` into `b`.
pub open spec fn edit_distance(a: Seq<char>, b: Seq<char>) -> nat
    decreases a.len() + b.len(),
{
    if a.len() == 0 {
        b.len()
    } else if b.len() == 0 {
        a.len()
    } else {
        let substitution: nat = if a.last() == b.last() {
            0
        } else {
            1
        };
        min3(
            edit_distance(a.drop_last(), b) + 1,
            edit_distance(a, b.drop_last()) + 1,
            edit_distance(a.drop_last(), b.drop_last()) + substitution,
        )
    }
}

/// Calls `levenshtein::levenshtein`, which compares the two texts character by
/// character. The contract claims that its result is their Levenshtein
/// distance, as `edit_distance` defines it.
#[verifier::external_body]
fn levenshtein_distance(a: &str, b: &str) -> (distance: usize)
    ensures
        distance == edit_distance(a@, b@),
{
    levenshtein::levenshtein(a, b)
}

/// A topic name together with its edit distance from a requested name.
#[derive(Debug, Clone, PartialEq, Eq)]
pub struct SimilarityCandidate {
    pub topic: String,
    pub distance: usize,
}

impl View for SimilarityCandidate {
    type V = (Seq<char>, nat);

    open spec fn view(&self) -> (Seq<char>, nat) {
        (self.topic@, self.distance as nat)
    }
}

impl SimilarityCandidate {
    /// A copy of this candidate.
    pub fn duplicate(&self) -> (copy: SimilarityCandidate)
        ensures
            copy@ == self@,
    {
        SimilarityCandidate { topic: self.topic.clone(), distance: self.distance }
    }
}

/// The candidates that a list holds, each as name and distance.
pub open spec fn candidates_of(list: Seq<SimilarityCandidate>) -> Seq<(Seq<char>, nat)> {
    Seq::new(list.len(), |i: int| list[i]@)
}

/// Every available name paired with its edit distance from `topic`, in the
/// order of `names`.
pub open spec fn similarities(topic: Seq<char>, names: Seq<Seq<char>>) -> Seq<(Seq<char>, nat)> {
    Seq::new(names.len(), |i: int| (names[i], edit_distance(topic, names[i])))
}

/// `sorted` with `x` placed behind every candidate that is not farther than `x`.
pub open spec fn insert_ranked(sorted: Seq<(Seq<char>, nat)>, x: (Seq<char>, nat)) -> Seq<
    (Seq<char>, nat),
>
    decreases sorted.len(),
{
    if sorted.len() == 0 {
        seq![x]
    } else if sorted.last().1 <= x.1 {
        sorted.push(x)
    } else {
        insert_ranked(sorted.drop_last(), x).push(sorted.last())
    }
}

/// The candidates in ascending order of distance; candidates of equal
/// distance keep the order in which they were given.
pub open spec fn ranked(candidates: Seq<(Seq<char>, nat)>) -> Seq<(Seq<char>, nat)>
    decreases candidates.len(),
{
    if candidates.len() == 0 {
        candidates
    } else {
        insert_ranked(ranked(candidates.drop_last()), candidates.last())
    }
}

/// Holds when no candidate stands before a closer one.
pub open spec fn ascending(list: Seq<(Seq<char>, nat)>) -> bool {
    forall|i: int, j: int| 0 <= i < j < list.len() ==> list[i].1 <= list[j].1
}

/// The test that picks the candidates at distance `d`.
pub open spec fn at_distance(d: nat) -> spec_fn((Seq<char>, nat)) -> bool {
    |c: (Seq<char>, nat)| c.1 == d
}

proof fn lemma_insert_position(sorted: Seq<(Seq<char>, nat)>, x: (Seq<char>, nat), pos: int)
    requires
        0 <= pos <= sorted.len(),
        forall|j: int| pos <= j < sorted.len() ==> sorted[j].1 > x.1,
        pos > 0 ==> sorted[pos - 1].1 <= x.1,
    ensures
        insert_ranked(sorted, x) == sorted.insert(pos, x),
    decreases sorted.len(),
{
    if 0 <= pos < sorted.len() {
        lemma_insert_position(sorted.drop_last(), x, pos);
    }
}

proof fn lemma_insert_ranked(sorted: Seq<(Seq<char>, nat)>, x: (Seq<char>, nat))
    ensures
        insert_ranked(sorted, x).len() == sorted.len() + 1,
        insert_ranked(sorted, x).to_multiset() == sorted.to_multiset().insert(x),
        forall|i: int|
            0 <= i < insert_ranked(sorted, x).len() ==> insert_ranked(sorted, x)[i] == x
                || sorted.contains(#[trigger] insert_ranked(sorted, x)[i]),
        ascending(sorted) ==> ascending(insert_ranked(sorted, x)),
        forall|d: nat|
            #![trigger insert_ranked(sorted, x).filter(at_distance(d))]
            insert_ranked(sorted, x).filter(at_distance(d)) == if x.1 == d {
                sorted.filter(at_distance(d)).push(x)
            } else {
                sorted.filter(at_distance(d))
            },
    decreases sorted.len(),
{
    broadcast use vstd::seq_lib::group_to_multiset_ensures;

    reveal(Seq::filter);
    let out = insert_ranked(sorted, x);
    if sorted.len() == 0 {
        assert forall|d: nat| #![trigger out.filter(at_distance(d))]
            out.filter(at_distance(d)) == if x.1 == d {
                sorted.filter(at_distance(d)).push(x)
            } else {
                sorted.filter(at_distance(d))
            } by {
            assert(out.drop_last() =~= sorted);
        }
    } else if sorted.last().1 <= x.1 {
        assert(out.drop_last() =~= sorted);
        assert forall|i: int| 0 <= i < out.len() implies out[i] == x || sorted.contains(
            #[trigger] out[i],
        ) by {
            if i < sorted.len() {
                assert(sorted[i] == out[i]);
            }
        }
    } else {
        let front = sorted.drop_last();
        let inner = insert_ranked(front, x);
        lemma_insert_ranked(front, x);
        assert(out.drop_last() =~= inner);
        assert(sorted =~= front.push(sorted.last()));
        assert forall|i: int| 0 <= i < out.len() implies out[i] == x || sorted.contains(
            #[trigger] out[i],
        ) by {
            if i < inner.len() && inner[i] != x {
                let k = choose|k: int| 0 <= k < front.len() && front[k] == inner[i];
                assert(sorted[k] == out[i]);
            }
        }
        if ascending(sorted) {
            assert forall|i: int, j: int| 0 <= i < j < out.len() implies out[i].1 <= out[j].1 by {
                if j == inner.len() && inner[i] != x {
                    let k = choose|k: int| 0 <= k < front.len() && front[k] == inner[i];
                    assert(sorted[k].1 <= sorted.last().1);
                }
            }
        }
        assert forall|d: nat| #![trigger out.filter(at_distance(d))]
            out.filter(at_distance(d)) == if x.1 == d {
                sorted.filter(at_distance(d)).push(x)
            } else {
                sorted.filter(at_distance(d))
            } by {
            assert(inner.filter(at_distance(d)) == if x.1 == d {
                front.filter(at_distance(d)).push(x)
            } else {
                front.filter(at_distance(d))
            });
        }
    }
}

/// A ranking holds exactly the candidates that were given, each as often.
pub proof fn lemma_ranked_permutation(candidates: Seq<(Seq<char>, nat)>)
    ensures
        ranked(candidates).len() == candidates.len(),
        ranked(candidates).to_multiset() == candidates.to_multiset(),
    decreases candidates.len(),
{
    broadcast use vstd::seq_lib::group_to_multiset_ensures;

    if candidates.len() > 0 {
        lemma_ranked_permutation(candidates.drop_last());
        lemma_insert_ranked(ranked(candidates.drop_last()), candidates.last());
        assert(candidates =~= candidates.drop_last().push(candidates.last()));
    }
}

/// A ranking is in ascending order of distance.
pub proof fn lemma_ranked_ascending(candidates: Seq<(Seq<char>, nat)>)
    ensures
        ascending(ranked(candidates)),
    decreases candidates.len(),
{
    if candidates.len() > 0 {
        lemma_ranked_ascending(candidates.drop_last());
        lemma_insert_ranked(ranked(candidates.drop_last()), candidates.last());
    }
}

/// Ranking is stable: the candidates at any one distance stand in the ranking
/// in the order in which they were given.
pub proof fn lemma_ranked_stable(candidates: Seq<(Seq<char>, nat)>, d: nat)
    ensures
        ranked(candidates).filter(at_distance(d)) == candidates.filter(at_distance(d)),
    decreases candidates.len(),
{
    reveal(Seq::filter);
    if candidates.len() > 0 {
        lemma_ranked_stable(candidates.drop_last(), d);
        lemma_insert_ranked(ranked(candidates.drop_last()), candidates.last());
    }
}

proof fn lemma_ascending_settled(r: Seq<(Seq<char>, nat)>, s: Seq<(Seq<char>, nat)>)
    requires
        ascending(r),
        ascending(s),
        forall|d: nat| #[trigger] r.filter(at_distance(d)) == s.filter(at_distance(d)),
    ensures
        r == s,
    decreases r.len(),
{
    reveal(Seq::filter);
    if r.len() == 0 {
        if s.len() > 0 {
            let e = s.last().1;
            assert(r.filter(at_distance(e)).len() == 0);
        }
    } else {
        let d = r.last().1;
        assert(r.filter(at_distance(d)) == r.drop_last().filter(at_distance(d)).push(r.last()));
        if s.len() == 0 {
            assert(s.filter(at_distance(d)).len() == 0);
        }
        let e = s.last().1;
        assert(s.filter(at_distance(e)) == s.drop_last().filter(at_distance(e)).push(s.last()));
        assert(d <= e) by {
            s.lemma_filter_contains_rev(at_distance(d), r.last());
            let i = choose|i: int| 0 <= i < s.len() && s[i] == r.last();
            assert(s[i].1 <= s.last().1);
        }
        assert(e <= d) by {
            r.lemma_filter_contains_rev(at_distance(e), s.last());
            let i = choose|i: int| 0 <= i < r.len() && r[i] == s.last();
            assert(r[i].1 <= r.last().1);
        }
        assert(r.last() == s.last()) by {
            assert(r.filter(at_distance(d)).last() == r.last());
        }
        let r_front = r.drop_last();
        let s_front = s.drop_last();
        assert forall|c: nat| #[trigger]
            r_front.filter(at_distance(c)) == s_front.filter(at_distance(c)) by {
            if c == d {
                assert(r_front.filter(at_distance(c)) =~= r.filter(at_distance(c)).drop_last());
            }
        }
        lemma_ascending_settled(r_front, s_front);
        assert(r =~= r_front.push(r.last()));
    }
}

/// The ranking is the only arrangement in ascending order of distance that
/// keeps, at every distance, the order in which the candidates were given.
pub proof fn lemma_ranking_unique(given: Seq<(Seq<char>, nat)>, arranged: Seq<(Seq<char>, nat)>)
    requires
        ascending(arranged),
        forall|d: nat| #[trigger]
            arranged.filter(at_distance(d)) == given.filter(at_distance(d)),
    ensures
        arranged == ranked(given),
{
    lemma_ranked_ascending(given);
    assert forall|d: nat| #[trigger]
        arranged.filter(at_distance(d)) == ranked(given).filter(at_distance(d)) by {
        lemma_ranked_stable(given, d);
    }
    lemma_ascending_settled(arranged, ranked(given));
}

proof fn lemma_insert_first(sorted: Seq<(Seq<char>, nat)>, x: (Seq<char>, nat))
    requires
        ascending(sorted),
    ensures
        insert_ranked(sorted, x).len() == sorted.len() + 1,
        insert_ranked(sorted, x)[0] == if sorted.len() == 0 || x.1 < sorted[0].1 {
            x
        } else {
            sorted[0]
        },
    decreases sorted.len(),
{
    if sorted.len() > 0 && sorted.last().1 > x.1 {
        lemma_insert_first(sorted.drop_last(), x);
    }
}

/// The first candidate of a ranking is the first of the closest: no
/// candidate is closer, and none that was given before it is as close.
pub proof fn lemma_ranked_first(candidates: Seq<(Seq<char>, nat)>) -> (at: int)
    requires
        candidates.len() > 0,
    ensures
        0 <= at < candidates.len(),
        ranked(candidates).len() == candidates.len(),
        ranked(candidates)[0] == candidates[at],
        forall|j: int| 0 <= j < candidates.len() ==> candidates[at].1 <= candidates[j].1,
        forall|j: int| 0 <= j < at ==> candidates[at].1 < candidates[j].1,
    decreases candidates.len(),
{
    let front = candidates.drop_last();
    lemma_ranked_ascending(front);
    lemma_ranked_permutation(front);
    lemma_insert_first(ranked(front), candidates.last());
    if front.len() == 0 {
        0
    } else {
        let before = lemma_ranked_first(front);
        let at = if candidates.last().1 < ranked(front)[0].1 {
            candidates.len() - 1
        } else {
            before
        };
        assert forall|j: int| 0 <= j < candidates.len() implies candidates[at].1
            <= candidates[j].1 by {
            if j < front.len() {
                assert(front[j] == candidates[j]);
            }
        }
        assert forall|j: int| 0 <= j < at implies candidates[at].1 < candidates[j].1 by {
            assert(front[j] == candidates[j]);
        }
        at
    }
}

/// Two texts are at distance zero exactly when they are the same text.
pub proof fn lemma_edit_distance_zero(a: Seq<char>, b: Seq<char>)
    ensures
        edit_distance(a, b) == 0 <==> a == b,
    decreases a.len() + b.len(),
{
    if a.len() == 0 || b.len() == 0 {
        if a.len() == 0 && b.len() == 0 {
            assert(a =~= b);
        }
    } else {
        lemma_edit_distance_zero(a.drop_last(), b.drop_last());
        if edit_distance(a, b) == 0 {
            assert(a =~= a.drop_last().push(a.last()));
            assert(b =~= b.drop_last().push(b.last()));
        }
    }
}

/// The distance of every available topic from the requested one, in the
/// order of `topic_names`.
pub fn similar_topics(topic: &str, topic_names: &Vec<String>) -> (similar: Vec<SimilarityCandidate>)
    ensures
        candidates_of(similar@) == similarities(topic@, names_of(topic_names@)),
{
    let mut similar: Vec<SimilarityCandidate> = Vec::new();
    let mut i: usize = 0;
    while i < topic_names.len()
        invariant
            i <= topic_names.len(),
            similar.len() == i,
            candidates_of(similar@) == similarities(topic@, names_of(topic_names@).take(i as int)),
        decreases topic_names.len() - i,
    {
        let ghost before = candidates_of(similar@);
        let name = &topic_names[i];
        let distance = levenshtein_distance(topic, name.as_str());
        similar.push(SimilarityCandidate { topic: name.clone(), distance });
        i += 1;
        proof {
            let names = names_of(topic_names@);
            let after = similarities(topic@, names.take(i as int));
            assert forall|k: int| 0 <= k < after.len() implies candidates_of(similar@)[k]
                == after[k] by {
                if k < i - 1 {
                    assert(candidates_of(similar@)[k] == before[k]);
                }
            }
        }
    }
    similar
}

/// Sorts candidates by ascending distance, keeping the given order among
/// candidates of equal distance.
pub fn rank_topics(candidates: &Vec<SimilarityCandidate>) -> (sorted: Vec<SimilarityCandidate>)
    ensures
        candidates_of(sorted@) == ranked(candidates_of(candidates@)),
{
    let mut sorted: Vec<SimilarityCandidate> = Vec::new();
    let mut i: usize = 0;
    while i < candidates.len()
        invariant
            i <= candidates.len(),
            candidates_of(sorted@) == ranked(candidates_of(candidates@).take(i as int)),
        decreases candidates.len() - i,
    {
        let next = candidates[i].duplicate();
        let ghost before = candidates_of(sorted@);
        let mut pos: usize = sorted.len();
        while pos > 0 && sorted[pos - 1].distance > next.distance
            invariant
                pos <= sorted.len(),
                before == candidates_of(sorted@),
                forall|j: int| pos <= j < sorted.len() ==> before[j].1 > next@.1,
            decreases pos,
        {
            pos -= 1;
        }
        proof {
            lemma_insert_position(before, next@, pos as int);
            let prefix = candidates_of(candidates@).take(i as int + 1);
            assert(prefix.drop_last() =~= candidates_of(candidates@).take(i as int));
        }
        sorted.insert(pos, next);
        i += 1;
    }
    assert(candidates_of(candidates@).take(i as int) =~= candidates_of(candidates@));
    sorted
}

/// How many topics a listing of `total` candidates shows.
pub open spec fn shown_count(total: nat) -> nat {
    if total <= MAX_TOPICS {
        total
    } else {
        MAX_TOPICS as nat
    }
}

/// The first `shown` candidates, one per line, each behind a dash.
pub open spec fn listing(ranking: Seq<(Seq<char>, nat)>, shown: nat) -> Seq<char>
    decreases shown,
{
    if shown == 0 {
        Seq::empty()
    } else if shown == 1 {
        " - "@ + ranking[0].0
    } else {
        listing(ranking, (shown - 1) as nat) + "\n"@ + " - "@ + ranking[shown - 1].0
    }
}

/// The line that counts the candidates that a listing of `total` leaves out.
pub open spec fn more_info(total: nat) -> Seq<char> {
    if total > MAX_TOPICS {
        "\n..."@ + decimal((total - MAX_TOPICS) as nat) + " more"@
    } else {
        Seq::empty()
    }
}

/// The start of every message about an unknown topic.
pub open spec fn unknown_topic_head(topic: Seq<char>, highlighting: Highlighting) -> Seq<char> {
    "Topic "@ + highlighting.error.paint(topic) + " does not exist."@
}

/// The message for a requested topic, given the ranking of the available
/// topics: that there are none, the single closest one, or a listing.
pub open spec fn ranking_text(
    topic: Seq<char>,
    ranking: Seq<(Seq<char>, nat)>,
    highlighting: Highlighting,
) -> Seq<char> {
    if ranking.len() == 0 {
        unknown_topic_head(topic, highlighting)
            + " In fact, there are no topics on the broker."@
    } else if ranking.len() == 1 || ranking[0].1 <= MAX_DISTANCE {
        unknown_topic_head(topic, highlighting) + " Did you mean "@
            + highlighting.success.paint(ranking[0].0) + "?"@
    } else {
        unknown_topic_head(topic, highlighting) + " Available topics are:\n"@ + listing(
            ranking,
            shown_count(ranking.len()),
        ) + more_info(ranking.len())
    }
}

/// The message for a requested topic that is not among `names`.
pub open spec fn unknown_topic_text(
    topic: Seq<char>,
    names: Seq<Seq<char>>,
    highlighting: Highlighting,
) -> Seq<char> {
    ranking_text(topic, ranked(similarities(topic, names)), highlighting)
}

/// Builds the message for an unknown topic from candidates that are already
/// ranked.
pub fn ranking_message(
    topic: &str,
    ranking: &Vec<SimilarityCandidate>,
    highlighting: &Highlighting,
) -> (message: String)
    ensures
        message@ == ranking_text(topic@, candidates_of(ranking@), *highlighting),
{
    let ghost list = candidates_of(ranking@);
    let mut message = String::new();
    message.append("Topic ");
    highlighting.error.append_painted(&mut message, topic);
    message.append(" does not exist.");
    if ranking.len() == 0 {
        message.append(" In fact, there are no topics on the broker.");
    } else if ranking.len() == 1 || ranking[0].distance <= MAX_DISTANCE {
        message.append(" Did you mean ");
        highlighting.success.append_painted(&mut message, ranking[0].topic.as_str());
        message.append("?");
    } else {
        message.append(" Available topics are:\n");
        let ghost base = message@;
        let shown: usize = if ranking.len() <= MAX_TOPICS {
            ranking.len()
        } else {
            MAX_TOPICS
        };
        let mut i: usize = 0;
        while i < shown
            invariant
                i <= shown <= ranking.len(),
                list == candidates_of(ranking@),
                message@ == base + listing(list, i as nat),
            decreases shown - i,
        {
            if i > 0 {
                message.append("\n");
            }
            message.append(" - ");
            message.append(ranking[i].topic.as_str());
            i += 1;
        }
        if ranking.len() > MAX_TOPICS {
            message.append("\n...");
            append_decimal(&mut message, ranking.len() - MAX_TOPICS);
            message.append(" more");
        }
    }
    message
}

/// Generates a graceful error message for an unknown topic based on the edit
/// distance to the existing topics.
pub fn unknown_topic_message(
    topic: &str,
    topic_names: &Vec<String>,
    highlighting: &Highlighting,
) -> (message: String)
    ensures
        message@ == unknown_topic_text(topic@, names_of(topic_names@), *highlighting),
{
    let similar = similar_topics(topic, topic_names);
    let ranking = rank_topics(&similar);
    ranking_message(topic, &ranking, highlighting)
}

/// Whatever topic is asked for, a cluster without topics is reported as such.
pub proof fn lemma_no_topics_text(topic: Seq<char>, highlighting: Highlighting)
    ensures
        unknown_topic_text(topic, Seq::empty(), highlighting) == unknown_topic_head(
            topic,
            highlighting,
        ) + " In fact, there are no topics on the broker."@,
{
}

/// The only topic of a cluster is suggested, however far it is from what was
/// asked for.
pub proof fn lemma_single_topic_text(topic: Seq<char>, name: Seq<char>, highlighting: Highlighting)
    ensures
        unknown_topic_text(topic, seq![name], highlighting) == unknown_topic_head(
            topic,
            highlighting,
        ) + " Did you mean "@ + highlighting.success.paint(name) + "?"@,
{
    let given = similarities(topic, seq![name]);
    let at = lemma_ranked_first(given);
}

/// Where some topic is within the threshold, the message suggests a single
/// topic: the first of the closest ones.
pub proof fn lemma_close_topic_text(
    topic: Seq<char>,
    names: Seq<Seq<char>>,
    highlighting: Highlighting,
) -> (at: int)
    requires
        exists|i: int| 0 <= i < names.len() && edit_distance(topic, names[i]) <= MAX_DISTANCE,
    ensures
        0 <= at < names.len(),
        forall|j: int|
            0 <= j < names.len() ==> edit_distance(topic, names[at]) <= edit_distance(
                topic,
                names[j],
            ),
        forall|j: int|
            0 <= j < at ==> edit_distance(topic, names[at]) < edit_distance(topic, names[j]),
        unknown_topic_text(topic, names, highlighting) == unknown_topic_head(topic, highlighting)
            + " Did you mean "@ + highlighting.success.paint(names[at]) + "?"@,
{
    let given = similarities(topic, names);
    let at = lemma_ranked_first(given);
    assert forall|j: int| 0 <= j < names.len() implies edit_distance(topic, names[at])
        <= edit_distance(topic, names[j]) by {
        assert(given[at].1 <= given[j].1);
    }
    assert forall|j: int| 0 <= j < at implies edit_distance(topic, names[at]) < edit_distance(
        topic,
        names[j],
    ) by {
        assert(given[at].1 < given[j].1);
    }
    at
}

/// A topic that is asked for and is among the available ones is suggested
/// under its own name.
pub proof fn lemma_known_topic_text(
    topic: Seq<char>,
    names: Seq<Seq<char>>,
    highlighting: Highlighting,
)
    requires
        names.contains(topic),
    ensures
        unknown_topic_text(topic, names, highlighting) == unknown_topic_head(topic, highlighting)
            + " Did you mean "@ + highlighting.success.paint(topic) + "?"@,
{
    lemma_edit_distance_zero(topic, topic);
    let at = lemma_close_topic_text(topic, names, highlighting);
    lemma_edit_distance_zero(topic, names[at]);
}

} // verus!
