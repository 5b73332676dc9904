//! The microblog provider: turns a post, together with its typed entity
//! lists (mentions, hashtags, urls, media), into one markdown content
//! string, recursing once into a reposted original when present.

use vstd::prelude::*;

use crate::text::{append_chars, chars_of, replace_chars, spec_replace, string_of};
use crate::time::{parse_instant_of, parse_microblog_timestamp};
use crate::{markdown_link_title_escape, spec_escape};
use crate::{Activity, ActivityView, DateTime};

verus! {

/// A url entity: the literal occurrence, its display form and its
/// expanded form.
pub struct Url {
    pub url: String,
    pub display_url: String,
    pub expanded_url: String,
    pub indices: [u32; 2],
}

/// A hashtag entity: the tag text without the leading `#`.
pub struct HashTag {
    pub text: String,
    pub indices: [u32; 2],
}

/// A mention entity: the handle without the leading `@`.
pub struct UserMention {
    pub screen_name: String,
    pub id_str: String,
    pub indices: [u32; 2],
}

/// A media entity: the literal occurrence and its display and expanded
/// forms.
#[derive(Clone)]
pub struct Media {
    pub id_str: String,
    pub url: String,
    pub display_url: String,
    pub expanded_url: String,
}

/// Native media attachments, when the post has any.
pub struct ExtendedEntities {
    pub media: Vec<Media>,
}

/// The typed entity lists attached to a post's text.
pub struct Entities {
    pub hashtags: Vec<HashTag>,
    pub user_mentions: Vec<UserMention>,
    pub urls: Vec<Url>,
    pub media: Option<Vec<Media>>,
}

/// The author of a post.
pub struct User {
    pub screen_name: String,
}

/// One microblog post; a repost carries its original as a nested post.
pub struct Tweet {
    pub id_str: String,
    pub full_text: String,
    pub lang: String,
    pub user: User,
    pub entities: Entities,
    pub extended_entities: Option<ExtendedEntities>,
    pub retweeted_status: Option<Box<Tweet>>,
    /// The raw provider timestamp, parsed during the transform.
    pub created_at: String,
}

/// The markdown link a mention is rewritten to.
pub open spec fn spec_mention_link(sn: Seq<char>) -> Seq<char> {
    "[@"@ + sn + "](https://twitter.com/"@ + sn + " \"View @"@ + spec_escape(sn)
        + " on Twitter\")"@
}

/// The markdown link a hashtag is rewritten to.
pub open spec fn spec_hashtag_link(tag: Seq<char>) -> Seq<char> {
    "[#"@ + tag + "](https://twitter.com/hashtag/"@ + tag + " \"View #"@ + spec_escape(tag)
        + " on Twitter\")"@
}

/// The markdown link a url entity is rewritten to.
pub open spec fn spec_url_link(display: Seq<char>, expanded: Seq<char>) -> Seq<char> {
    "["@ + display + "]("@ + expanded + ")"@
}

/// The markdown link a native media attachment is rewritten to.
pub open spec fn spec_media_link(display: Seq<char>) -> Seq<char> {
    "[https://"@ + display + "](https://"@ + display + ")"@
}

/// One mention rewritten: every occurrence of `@handle` becomes a link.
pub open spec fn spec_mention_step(t: Seq<char>, m: UserMention) -> Seq<char> {
    spec_replace(t, seq!['@'] + m.screen_name@, spec_mention_link(m.screen_name@))
}

pub open spec fn spec_fold_mentions(t: Seq<char>, ms: Seq<UserMention>) -> Seq<char>
    decreases ms.len(),
{
    if ms.len() == 0 {
        t
    } else {
        spec_fold_mentions(spec_mention_step(t, ms[0]), ms.skip(1))
    }
}

/// One hashtag rewritten: every occurrence of `#tag` becomes a link.
pub open spec fn spec_hashtag_step(t: Seq<char>, h: HashTag) -> Seq<char> {
    spec_replace(t, seq!['#'] + h.text@, spec_hashtag_link(h.text@))
}

pub open spec fn spec_fold_hashtags(t: Seq<char>, hs: Seq<HashTag>) -> Seq<char>
    decreases hs.len(),
{
    if hs.len() == 0 {
        t
    } else {
        spec_fold_hashtags(spec_hashtag_step(t, hs[0]), hs.skip(1))
    }
}

/// One url entity rewritten: its literal occurrence becomes a link showing
/// the display form and pointing at the expanded form.
pub open spec fn spec_url_step(t: Seq<char>, u: Url) -> Seq<char> {
    spec_replace(t, u.url@, spec_url_link(u.display_url@, u.expanded_url@))
}

pub open spec fn spec_fold_urls(t: Seq<char>, us: Seq<Url>) -> Seq<char>
    decreases us.len(),
{
    if us.len() == 0 {
        t
    } else {
        spec_fold_urls(spec_url_step(t, us[0]), us.skip(1))
    }
}

/// One basic media entity removed from the text.
pub open spec fn spec_media_step(t: Seq<char>, m: Media) -> Seq<char> {
    spec_replace(t, m.url@, Seq::<char>::empty())
}

pub open spec fn spec_fold_media(t: Seq<char>, ms: Seq<Media>) -> Seq<char>
    decreases ms.len(),
{
    if ms.len() == 0 {
        t
    } else {
        spec_fold_media(spec_media_step(t, ms[0]), ms.skip(1))
    }
}

/// One native media entity rewritten to a link on its display form.
pub open spec fn spec_ext_media_step(t: Seq<char>, m: Media) -> Seq<char> {
    spec_replace(t, m.url@, spec_media_link(m.display_url@))
}

pub open spec fn spec_fold_ext_media(t: Seq<char>, ms: Seq<Media>) -> Seq<char>
    decreases ms.len(),
{
    if ms.len() == 0 {
        t
    } else {
        spec_fold_ext_media(spec_ext_media_step(t, ms[0]), ms.skip(1))
    }
}

/// The fully linked text of a post: a repost is rendered as an `RT` prefix
/// naming the original author, followed by the original's linked text;
/// otherwise each entity list is folded over the text in turn.
pub open spec fn spec_patch_tweet(t: Seq<char>, tweet: Tweet) -> Seq<char>
    decreases tweet,
{
    match tweet.retweeted_status {
        Some(rt) => "RT [@"@ + rt.user.screen_name@ + "](https://twitter.com/"@
            + rt.user.screen_name@ + " \"View "@ + spec_escape(rt.user.screen_name@)
            + " on Twitter\") "@ + spec_patch_tweet(rt.full_text@, *rt),
        None => {
            let t1 = spec_fold_mentions(t, tweet.entities.user_mentions@);
            let t2 = spec_fold_hashtags(t1, tweet.entities.hashtags@);
            let t3 = spec_fold_urls(t2, tweet.entities.urls@);
            // Native media is richer: it renders as a link before the basic
            // pass can remove the same occurrence.
            let t4 = match tweet.extended_entities {
                Some(es) => spec_fold_ext_media(t3, es.media@),
                None => t3,
            };
            match tweet.entities.media {
                Some(ms) => spec_fold_media(t4, ms@),
                None => t4,
            }
        },
    }
}

fn mention_pattern(m: &UserMention) -> (r: Vec<char>)
    ensures
        r@ == seq!['@'] + m.screen_name@,
{
    let mut v: Vec<char> = Vec::new();
    v.push('@');
    let sn = chars_of(m.screen_name.as_str());
    append_chars(&mut v, &sn);
    proof {
        assert(v@ =~= seq!['@'] + m.screen_name@);
    }
    v
}

fn mention_link(m: &UserMention) -> (r: Vec<char>)
    ensures
        r@ == spec_mention_link(m.screen_name@),
{
    let sn = chars_of(m.screen_name.as_str());
    let esc = markdown_link_title_escape(m.screen_name.as_str());
    let mut v: Vec<char> = Vec::new();
    let p = chars_of("[@");
    append_chars(&mut v, &p);
    append_chars(&mut v, &sn);
    let p = chars_of("](https://twitter.com/");
    append_chars(&mut v, &p);
    append_chars(&mut v, &sn);
    let p = chars_of(" \"View @");
    append_chars(&mut v, &p);
    let e = chars_of(esc.as_str());
    append_chars(&mut v, &e);
    let p = chars_of(" on Twitter\")");
    append_chars(&mut v, &p);
    proof {
        assert(v@ =~= spec_mention_link(m.screen_name@));
    }
    v
}

fn apply_mentions(t: Vec<char>, ms: &Vec<UserMention>) -> (r: Vec<char>)
    ensures
        r@ == spec_fold_mentions(t@, ms@),
{
    let ghost t0 = t@;
    let mut cur = t;
    let mut i: usize = 0;
    proof {
        assert(ms@.skip(0) =~= ms@);
    }
    while i < ms.len()
        invariant
            i <= ms@.len(),
            spec_fold_mentions(t0, ms@) == spec_fold_mentions(cur@, ms@.skip(i as int)),
        decreases ms@.len() - i,
    {
        let m = &ms[i];
        let pat = mention_pattern(m);
        let rep = mention_link(m);
        let next = replace_chars(&cur, &pat, &rep);
        proof {
            assert(ms@.skip(i as int)[0] == ms@[i as int]);
            assert(ms@.skip(i as int).skip(1) =~= ms@.skip(i + 1));
            assert(next@ == spec_mention_step(cur@, ms@[i as int]));
        }
        cur = next;
        i = i + 1;
    }
    proof {
        assert(ms@.skip(ms@.len() as int) =~= Seq::<UserMention>::empty());
    }
    cur
}

fn hashtag_pattern(h: &HashTag) -> (r: Vec<char>)
    ensures
        r@ == seq!['#'] + h.text@,
{
    let mut v: Vec<char> = Vec::new();
    v.push('#');
    let tag = chars_of(h.text.as_str());
    append_chars(&mut v, &tag);
    proof {
        assert(v@ =~= seq!['#'] + h.text@);
    }
    v
}

fn hashtag_link(h: &HashTag) -> (r: Vec<char>)
    ensures
        r@ == spec_hashtag_link(h.text@),
{
    let tag = chars_of(h.text.as_str());
    let esc = markdown_link_title_escape(h.text.as_str());
    let mut v: Vec<char> = Vec::new();
    let p = chars_of("[#");
    append_chars(&mut v, &p);
    append_chars(&mut v, &tag);
    let p = chars_of("](https://twitter.com/hashtag/");
    append_chars(&mut v, &p);
    append_chars(&mut v, &tag);
    let p = chars_of(" \"View #");
    append_chars(&mut v, &p);
    let e = chars_of(esc.as_str());
    append_chars(&mut v, &e);
    let p = chars_of(" on Twitter\")");
    append_chars(&mut v, &p);
    proof {
        assert(v@ =~= spec_hashtag_link(h.text@));
    }
    v
}

fn apply_hashtags(t: Vec<char>, hs: &Vec<HashTag>) -> (r: Vec<char>)
    ensures
        r@ == spec_fold_hashtags(t@, hs@),
{
    let ghost t0 = t@;
    let mut cur = t;
    let mut i: usize = 0;
    proof {
        assert(hs@.skip(0) =~= hs@);
    }
    while i < hs.len()
        invariant
            i <= hs@.len(),
            spec_fold_hashtags(t0, hs@) == spec_fold_hashtags(cur@, hs@.skip(i as int)),
        decreases hs@.len() - i,
    {
        let h = &hs[i];
        let pat = hashtag_pattern(h);
        let rep = hashtag_link(h);
        let next = replace_chars(&cur, &pat, &rep);
        proof {
            assert(hs@.skip(i as int)[0] == hs@[i as int]);
            assert(hs@.skip(i as int).skip(1) =~= hs@.skip(i + 1));
            assert(next@ == spec_hashtag_step(cur@, hs@[i as int]));
        }
        cur = next;
        i = i + 1;
    }
    proof {
        assert(hs@.skip(hs@.len() as int) =~= Seq::<HashTag>::empty());
    }
    cur
}

fn url_link(u: &Url) -> (r: Vec<char>)
    ensures
        r@ == spec_url_link(u.display_url@, u.expanded_url@),
{
    let mut v: Vec<char> = Vec::new();
    let p = chars_of("[");
    append_chars(&mut v, &p);
    let d = chars_of(u.display_url.as_str());
    append_chars(&mut v, &d);
    let p = chars_of("](");
    append_chars(&mut v, &p);
    let e = chars_of(u.expanded_url.as_str());
    append_chars(&mut v, &e);
    let p = chars_of(")");
    append_chars(&mut v, &p);
    proof {
        assert(v@ =~= spec_url_link(u.display_url@, u.expanded_url@));
    }
    v
}

fn apply_urls(t: Vec<char>, us: &Vec<Url>) -> (r: Vec<char>)
    ensures
        r@ == spec_fold_urls(t@, us@),
{
    let ghost t0 = t@;
    let mut cur = t;
    let mut i: usize = 0;
    proof {
        assert(us@.skip(0) =~= us@);
    }
    while i < us.len()
        invariant
            i <= us@.len(),
            spec_fold_urls(t0, us@) == spec_fold_urls(cur@, us@.skip(i as int)),
        decreases us@.len() - i,
    {
        let u = &us[i];
        let pat = chars_of(u.url.as_str());
        let rep = url_link(u);
        let next = replace_chars(&cur, &pat, &rep);
        proof {
            assert(us@.skip(i as int)[0] == us@[i as int]);
            assert(us@.skip(i as int).skip(1) =~= us@.skip(i + 1));
            assert(next@ == spec_url_step(cur@, us@[i as int]));
        }
        cur = next;
        i = i + 1;
    }
    proof {
        assert(us@.skip(us@.len() as int) =~= Seq::<Url>::empty());
    }
    cur
}

fn apply_media(t: Vec<char>, ms: &Vec<Media>) -> (r: Vec<char>)
    ensures
        r@ == spec_fold_media(t@, ms@),
{
    let ghost t0 = t@;
    let mut cur = t;
    let mut i: usize = 0;
    proof {
        assert(ms@.skip(0) =~= ms@);
    }
    while i < ms.len()
        invariant
            i <= ms@.len(),
            spec_fold_media(t0, ms@) == spec_fold_media(cur@, ms@.skip(i as int)),
        decreases ms@.len() - i,
    {
        let m = &ms[i];
        let pat = chars_of(m.url.as_str());
        let rep: Vec<char> = Vec::new();
        let next = replace_chars(&cur, &pat, &rep);
        proof {
            assert(ms@.skip(i as int)[0] == ms@[i as int]);
            assert(ms@.skip(i as int).skip(1) =~= ms@.skip(i + 1));
            assert(next@ == spec_media_step(cur@, ms@[i as int]));
        }
        cur = next;
        i = i + 1;
    }
    proof {
        assert(ms@.skip(ms@.len() as int) =~= Seq::<Media>::empty());
    }
    cur
}

fn ext_media_link(m: &Media) -> (r: Vec<char>)
    ensures
        r@ == spec_media_link(m.display_url@),
{
    let d = chars_of(m.display_url.as_str());
    let mut v: Vec<char> = Vec::new();
    let p = chars_of("[https://");
    append_chars(&mut v, &p);
    append_chars(&mut v, &d);
    let p = chars_of("](https://");
    append_chars(&mut v, &p);
    append_chars(&mut v, &d);
    let p = chars_of(")");
    append_chars(&mut v, &p);
    proof {
        assert(v@ =~= spec_media_link(m.display_url@));
    }
    v
}

fn apply_ext_media(t: Vec<char>, ms: &Vec<Media>) -> (r: Vec<char>)
    ensures
        r@ == spec_fold_ext_media(t@, ms@),
{
    let ghost t0 = t@;
    let mut cur = t;
    let mut i: usize = 0;
    proof {
        assert(ms@.skip(0) =~= ms@);
    }
    while i < ms.len()
        invariant
            i <= ms@.len(),
            spec_fold_ext_media(t0, ms@) == spec_fold_ext_media(cur@, ms@.skip(i as int)),
        decreases ms@.len() - i,
    {
        let m = &ms[i];
        let pat = chars_of(m.url.as_str());
        let rep = ext_media_link(m);
        let next = replace_chars(&cur, &pat, &rep);
        proof {
            assert(ms@.skip(i as int)[0] == ms@[i as int]);
            assert(ms@.skip(i as int).skip(1) =~= ms@.skip(i + 1));
            assert(next@ == spec_ext_media_step(cur@, ms@[i as int]));
        }
        cur = next;
        i = i + 1;
    }
    proof {
        assert(ms@.skip(ms@.len() as int) =~= Seq::<Media>::empty());
    }
    cur
}

/// Rewrites a post's text into markdown: the `RT` form for a repost,
/// otherwise the text with mentions, hashtags, urls and media linked.
pub fn patch_text(t: String, tweet: &Tweet) -> (r: String)
    ensures
        r@ == spec_patch_tweet(t@, *tweet),
    decreases *tweet,
{
    match &tweet.retweeted_status {
        Some(rt) => {
            let inner = patch_text(rt.full_text.clone(), rt);
            let sn = chars_of(rt.user.screen_name.as_str());
            let esc = markdown_link_title_escape(rt.user.screen_name.as_str());
            let mut v: Vec<char> = Vec::new();
            let p = chars_of("RT [@");
            append_chars(&mut v, &p);
            append_chars(&mut v, &sn);
            let p = chars_of("](https://twitter.com/");
            append_chars(&mut v, &p);
            append_chars(&mut v, &sn);
            let p = chars_of(" \"View ");
            append_chars(&mut v, &p);
            let e = chars_of(esc.as_str());
            append_chars(&mut v, &e);
            let p = chars_of(" on Twitter\") ");
            append_chars(&mut v, &p);
            let inner_chars = chars_of(inner.as_str());
            append_chars(&mut v, &inner_chars);
            proof {
                assert(v@ =~= spec_patch_tweet(t@, *tweet));
            }
            string_of(&v)
        },
        None => {
            let cur = chars_of(t.as_str());
            let cur = apply_mentions(cur, &tweet.entities.user_mentions);
            let cur = apply_hashtags(cur, &tweet.entities.hashtags);
            let cur = apply_urls(cur, &tweet.entities.urls);
            let cur = match &tweet.extended_entities {
                Some(es) => apply_ext_media(cur, &es.media),
                None => cur,
            };
            let cur = match &tweet.entities.media {
                Some(ms) => apply_media(cur, ms),
                None => cur,
            };
            string_of(&cur)
        },
    }
}

/// What one post contributes to the feed, once its timestamp has parsed.
pub open spec fn spec_tweet_activity(tweet: Tweet, sec: i64) -> ActivityView {
    ActivityView {
        activity_type: "twitter"@,
        content: spec_patch_tweet(tweet.full_text@, tweet),
        url: "https://twitter.com/"@ + tweet.user.screen_name@ + "/status/"@ + tweet.id_str@,
        action: "Tweeted"@,
        ts: sec,
    }
}

/// The activities of a list of posts, in order; a post whose timestamp
/// does not parse is dropped.
pub open spec fn spec_transform_tweets(ts: Seq<Tweet>) -> Seq<ActivityView>
    decreases ts.len(),
{
    if ts.len() == 0 {
        Seq::<ActivityView>::empty()
    } else {
        let init = spec_transform_tweets(ts.drop_last());
        let tweet = ts.last();
        match parse_instant_of(tweet.created_at@, "%a %b %d %H:%M:%S %z %Y"@) {
            Some(sec) => init.push(spec_tweet_activity(tweet, sec)),
            None => init,
        }
    }
}

/// Converts each post into a feed activity; a post whose timestamp does
/// not parse is dropped, and one bad post loses no other.
pub fn transform_tweets(tweets: &Vec<Tweet>) -> (r: Vec<Activity>)
    ensures
        r@.map_values(|a: Activity| a@) == spec_transform_tweets(tweets@),
{
    let mut out: Vec<Activity> = Vec::new();
    let mut i: usize = 0;
    proof {
        assert(tweets@.take(0) =~= Seq::<Tweet>::empty());
        assert(out@.map_values(|a: Activity| a@) =~= spec_transform_tweets(tweets@.take(0)));
    }
    while i < tweets.len()
        invariant
            i <= tweets@.len(),
            out@.map_values(|a: Activity| a@) == spec_transform_tweets(tweets@.take(i as int)),
        decreases tweets@.len() - i,
    {
        let ghost out_pre = out@;
        let tweet = &tweets[i];
        proof {
            assert(tweets@.take(i + 1).drop_last() =~= tweets@.take(i as int));
            assert(tweets@.take(i + 1).last() == tweets@[i as int]);
        }
        match parse_microblog_timestamp(tweet.created_at.as_str()) {
            Some(sec) => {
                let content = patch_text(tweet.full_text.clone(), tweet);
                let p = chars_of("https://twitter.com/");
                let sn = chars_of(tweet.user.screen_name.as_str());
                let q = chars_of("/status/");
                let id = chars_of(tweet.id_str.as_str());
                let mut v: Vec<char> = Vec::new();
                append_chars(&mut v, &p);
                append_chars(&mut v, &sn);
                append_chars(&mut v, &q);
                append_chars(&mut v, &id);
                let url = string_of(&v);
                let act = Activity::new(
                    "twitter",
                    content,
                    DateTime { url: url, action: "Tweeted".to_owned(), ts: sec },
                );
                proof {
                    assert(act@ =~= spec_tweet_activity(tweets@[i as int], sec));
                }
                out.push(act);
                proof {
                    assert(out@.map_values(|a: Activity| a@) =~= out_pre.map_values(
                        |a: Activity| a@,
                    ).push(act@));
                }
            },
            None => {},
        }
        i = i + 1;
    }
    proof {
        assert(tweets@.take(tweets@.len() as int) =~= tweets@);
    }
    out
}

} // verus!
