//! Aggregates a person's public social activity into one feed: each provider's
//! raw records are turned into a uniform activity record (a markdown content
//! string plus a normalized timestamp), merged, sorted newest-first and cut to
//! the most recent dozen.

use vstd::prelude::*;
use vstd::multiset::Multiset;

pub mod text;
pub mod time;
pub mod dribbble;
pub mod github;
pub mod twitter;

verus! {

/// When an activity happened, where it points, and the verb shown with it.
pub struct DateTime {
    pub url: String,
    pub action: String,
    /// Seconds since the Unix epoch, UTC-naive.
    pub ts: i64,
}

/// One entry of the assembled feed.
pub struct Activity {
    pub activity_type: String,
    pub content: String,
    pub datetime: DateTime,
}

/// The mathematical content of an [`Activity`]: its strings as character
/// sequences, with the timestamp and its link and verb flattened in.
#[verifier::ext_equal]
pub struct ActivityView {
    pub activity_type: Seq<char>,
    pub content: Seq<char>,
    pub url: Seq<char>,
    pub action: Seq<char>,
    pub ts: i64,
}

impl View for Activity {
    type V = ActivityView;

    open spec fn view(&self) -> ActivityView {
        ActivityView {
            activity_type: self.activity_type@,
            content: self.content@,
            url: self.datetime.url@,
            action: self.datetime.action@,
            ts: self.datetime.ts,
        }
    }
}

impl Activity {
    pub fn new(activity_type: &str, content: String, datetime: DateTime) -> (r: Self)
        ensures
            r.activity_type@ == activity_type@,
            r.content == content,
            r.datetime == datetime,
    {
        Activity {
            activity_type: activity_type.to_owned(),
            content: content,
            datetime: datetime,
        }
    }
}

/// The feed keeps only this many of the most recent activities.
pub const FEED_LIMIT: usize = 12;

/// Newest first: timestamps never increase along the sequence.
pub open spec fn sorted_desc(s: Seq<Activity>) -> bool {
    forall|i: int, j: int| 0 <= i < j < s.len() ==> s[i].datetime.ts >= s[j].datetime.ts
}

/// Sorts activities by timestamp, newest first. The result is a permutation
/// of the input; the order of equal timestamps is not specified.
pub fn sort_activities(feed: Vec<Activity>) -> (r: Vec<Activity>)
    ensures
        sorted_desc(r@),
        r@.to_multiset() == feed@.to_multiset(),
{
    broadcast use vstd::seq_lib::group_to_multiset_ensures;

    let ghost feed0 = feed@;
    let mut rem = feed;
    let mut out: Vec<Activity> = Vec::new();
    proof {
        assert(out@.to_multiset() =~= Multiset::<Activity>::empty());
        assert(out@.to_multiset().add(rem@.to_multiset()) =~= rem@.to_multiset());
    }
    while rem.len() > 0
        invariant
            sorted_desc(out@),
            out@.to_multiset().add(rem@.to_multiset()) == feed0.to_multiset(),
        decreases rem@.len(),
    {
        let ghost rem_pre = rem@;
        let ghost out_pre = out@;
        let x = rem.pop().unwrap();
        proof {
            assert(rem_pre =~= rem@.push(x));
            vstd::seq_lib::to_multiset_build(rem@, x);
            assert(rem_pre.to_multiset() == rem@.to_multiset().insert(x));
        }
        let mut idx: usize = 0;
        while idx < out.len() && out[idx].datetime.ts >= x.datetime.ts
            invariant
                idx <= out@.len(),
                out@ == out_pre,
                forall|k: int| 0 <= k < idx ==> out@[k].datetime.ts >= x.datetime.ts,
            decreases out@.len() - idx,
        {
            idx = idx + 1;
        }
        let ghost pos = idx as int;
        proof {
            assert(pos == out@.len() || out@[pos].datetime.ts < x.datetime.ts);
        }
        out.insert(idx, x);
        proof {
            assert(out@ == out_pre.insert(pos, x));
            vstd::seq_lib::to_multiset_insert(out_pre, pos, x);
            assert(out@.to_multiset() == out_pre.to_multiset().insert(x));
            assert forall|i: int, j: int| 0 <= i < j < out@.len() implies out@[i].datetime.ts
                >= out@[j].datetime.ts by {
                if i < pos {
                    assert(out@[i] == out_pre[i]);
                } else if i == pos {
                    assert(out@[i] == x);
                } else {
                    assert(out@[i] == out_pre[i - 1]);
                }
                if j < pos {
                    assert(out@[j] == out_pre[j]);
                } else if j == pos {
                    assert(out@[j] == x);
                } else {
                    assert(out@[j] == out_pre[j - 1]);
                }
            }
            assert(out@.to_multiset().add(rem@.to_multiset()) =~= out_pre.to_multiset().add(
                rem_pre.to_multiset(),
            ));
        }
    }
    proof {
        assert(rem@ =~= Seq::<Activity>::empty());
        assert(rem@.to_multiset() =~= Multiset::<Activity>::empty());
        assert(out@.to_multiset().add(Multiset::<Activity>::empty()) =~= out@.to_multiset());
    }
    out
}

/// How many activities the assembled feed holds for an input of `n` items.
pub open spec fn feed_len(n: nat) -> nat {
    if n < FEED_LIMIT as nat {
        n
    } else {
        FEED_LIMIT as nat
    }
}

/// Merged feed: the input sorted newest first, cut to the `FEED_LIMIT` most
/// recent entries. The result is a prefix of a newest-first permutation of
/// the whole input.
pub fn assemble_feed(feed: Vec<Activity>) -> (r: Vec<Activity>)
    ensures
        sorted_desc(r@),
        r@.len() == feed_len(feed@.len()),
        exists|all: Seq<Activity>|
            (#[trigger] all.to_multiset()) == feed@.to_multiset() && sorted_desc(all) && r@
                == all.take(feed_len(feed@.len()) as int),
{
    let ghost feed0 = feed@;
    let mut sorted = sort_activities(feed);
    let ghost all = sorted@;
    if sorted.len() > FEED_LIMIT {
        sorted.truncate(FEED_LIMIT);
        proof {
            assert(all.take(FEED_LIMIT as int) =~= sorted@);
        }
    } else {
        proof {
            assert(all.take(all.len() as int) =~= all);
        }
    }
    proof {
        vstd::seq_lib::to_multiset_len(all);
        vstd::seq_lib::to_multiset_len(feed0);
        assert(all.to_multiset() == feed0.to_multiset() && sorted_desc(all) && sorted@ == all.take(
            feed_len(feed0.len()) as int,
        ));
        assert forall|i: int, j: int| 0 <= i < j < sorted@.len() implies sorted@[i].datetime.ts
            >= sorted@[j].datetime.ts by {
            assert(sorted@[i] == all[i] && sorted@[j] == all[j]);
        }
    }
    sorted
}

/// The characters that would end a markdown link title early.
pub open spec fn is_escape_target(c: char) -> bool {
    c == '"' || c == '(' || c == ')'
}

/// The escape code of one character: the three title-breaking characters
/// become numeric character references, every other character stays itself.
pub open spec fn escape_char(c: char) -> Seq<char> {
    if c == '"' {
        seq!['&', '#', '3', '4', ';']
    } else if c == '(' {
        seq!['&', '#', '4', '0', ';']
    } else if c == ')' {
        seq!['&', '#', '4', '1', ';']
    } else {
        seq![c]
    }
}

/// `s` with every title-breaking character replaced by its escape code.
pub open spec fn spec_escape(s: Seq<char>) -> Seq<char>
    decreases s.len(),
{
    if s.len() == 0 {
        Seq::<char>::empty()
    } else {
        escape_char(s[0]) + spec_escape(s.skip(1))
    }
}

proof fn lemma_escape_snoc(s: Seq<char>, c: char)
    ensures
        spec_escape(s.push(c)) == spec_escape(s) + escape_char(c),
    decreases s.len(),
{
    if s.len() == 0 {
        assert(s.push(c)[0] == c);
        assert(s.push(c).skip(1) =~= Seq::<char>::empty());
        assert(spec_escape(s) == Seq::<char>::empty());
        assert(spec_escape(s.push(c)) == escape_char(c) + spec_escape(Seq::<char>::empty()));
        assert(escape_char(c) + Seq::<char>::empty() =~= escape_char(c));
        assert(Seq::<char>::empty() + escape_char(c) =~= escape_char(c));
    } else {
        lemma_escape_snoc(s.skip(1), c);
        assert(s.push(c).skip(1) =~= s.skip(1).push(c));
        assert(s.push(c)[0] == s[0]);
        assert(escape_char(s[0]) + (spec_escape(s.skip(1)) + escape_char(c)) =~= (escape_char(s[0])
            + spec_escape(s.skip(1))) + escape_char(c));
    }
}

fn escape_push(out: &mut Vec<char>, c: char)
    ensures
        final(out)@ == old(out)@ + escape_char(c),
{
    if c == '"' {
        out.push('&');
        out.push('#');
        out.push('3');
        out.push('4');
        out.push(';');
    } else if c == '(' {
        out.push('&');
        out.push('#');
        out.push('4');
        out.push('0');
        out.push(';');
    } else if c == ')' {
        out.push('&');
        out.push('#');
        out.push('4');
        out.push('1');
        out.push(';');
    } else {
        out.push(c);
    }
    proof {
        assert(out@ =~= old(out)@ + escape_char(c));
    }
}

/// Escapes a string for use as a markdown link title: `"` becomes `&#34;`,
/// `(` becomes `&#40;` and `)` becomes `&#41;`.
pub fn markdown_link_title_escape(s: &str) -> (r: String)
    ensures
        r@ == spec_escape(s@),
{
    let v = text::chars_of(s);
    let mut out: Vec<char> = Vec::new();
    let mut i: usize = 0;
    while i < v.len()
        invariant
            i <= v@.len(),
            v@ == s@,
            out@ == spec_escape(v@.take(i as int)),
        decreases v@.len() - i,
    {
        escape_push(&mut out, v[i]);
        proof {
            lemma_escape_snoc(v@.take(i as int), v@[i as int]);
            assert(v@.take(i + 1) =~= v@.take(i as int).push(v@[i as int]));
        }
        i = i + 1;
    }
    proof {
        assert(v@.take(v@.len() as int) =~= v@);
    }
    text::string_of(&out)
}

/// The escaped form of a string contains none of the three title-breaking
/// characters: each was rewritten to a reference made of `&`, `#`, digits
/// and `;`.
pub proof fn lemma_escape_free_of_targets(s: Seq<char>)
    ensures
        forall|j: int|
            0 <= j < spec_escape(s).len() ==> !is_escape_target(#[trigger] spec_escape(s)[j]),
    decreases s.len(),
{
    if s.len() > 0 {
        lemma_escape_free_of_targets(s.skip(1));
        assert forall|j: int|
            0 <= j < spec_escape(s).len() implies !is_escape_target(
            #[trigger] spec_escape(s)[j],
        ) by {
            let head = escape_char(s[0]);
            if j < head.len() {
                assert(spec_escape(s)[j] == head[j]);
            } else {
                assert(spec_escape(s)[j] == spec_escape(s.skip(1))[j - head.len()]);
            }
        }
    }
}

/// On the three title-breaking characters (and in fact on every character)
/// the escape mapping loses no information: distinct characters have
/// distinct escape codes.
pub proof fn lemma_escape_char_injective(c1: char, c2: char)
    requires
        escape_char(c1) == escape_char(c2),
    ensures
        c1 == c2,
{
    if c1 != c2 {
        assert(escape_char('"')[2] == '3' && escape_char('(')[2] == '4' && escape_char(')')[2]
            == '4');
        assert(escape_char('"')[3] == '4' && escape_char('(')[3] == '0' && escape_char(')')[3]
            == '1');
        if !is_escape_target(c1) && !is_escape_target(c2) {
            assert(escape_char(c1)[0] == c1 && escape_char(c2)[0] == c2);
        } else if is_escape_target(c1) && !is_escape_target(c2) {
            assert(escape_char(c1).len() == 5 && escape_char(c2).len() == 1);
        } else if !is_escape_target(c1) && is_escape_target(c2) {
            assert(escape_char(c1).len() == 1 && escape_char(c2).len() == 5);
        }
    }
}

} // verus!
