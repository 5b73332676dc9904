//! The design-portfolio provider: turns a shot record into a content
//! string announcing it with an inline teaser image and a link per tag.

use vstd::prelude::*;

use crate::text::{append_chars, chars_of, string_of};
use crate::time::parse_calendar_timestamp;
use crate::{markdown_link_title_escape, spec_escape};
use crate::{Activity, ActivityView, DateTime};

verus! {

/// The renditions of one shot.
pub struct ImageSet {
    pub hidpi: Option<String>,
    pub normal: String,
    pub teaser: String,
}

/// One design-portfolio shot.
pub struct Shot {
    pub id: i64,
    pub title: String,
    pub description: String,
    pub images: ImageSet,
    pub html_url: String,
    pub width: i32,
    pub height: i32,
    pub tags: Vec<String>,
    /// The raw provider timestamps, parsed during the transform.
    pub published_at: String,
    pub updated_at: String,
}

/// The link to a tag's browse page, title-escaped.
pub open spec fn spec_tag_link(tag: Seq<char>) -> Seq<char> {
    "[#"@ + tag + "](https://dribbble.com/ryanmcgrath/tags/"@ + tag + " \"View shots tagged "@
        + spec_escape(tag) + " on Dribbble\")"@
}

/// The tag links of a shot, separated by single spaces.
pub open spec fn spec_tags_joined(tags: Seq<String>) -> Seq<char>
    decreases tags.len(),
{
    if tags.len() == 0 {
        Seq::<char>::empty()
    } else if tags.len() == 1 {
        spec_tag_link(tags[0]@)
    } else {
        spec_tag_link(tags[0]@) + " "@ + spec_tags_joined(tags.skip(1))
    }
}

proof fn lemma_tags_joined_snoc(tags: Seq<String>, t: String)
    ensures
        spec_tags_joined(tags.push(t)) == if tags.len() == 0 {
            spec_tag_link(t@)
        } else {
            spec_tags_joined(tags) + " "@ + spec_tag_link(t@)
        },
    decreases tags.len(),
{
    let whole = tags.push(t);
    if tags.len() == 0 {
        assert(whole.len() == 1);
        assert(whole[0] == t);
    } else {
        lemma_tags_joined_snoc(tags.skip(1), t);
        assert(whole.skip(1) =~= tags.skip(1).push(t));
        assert(whole[0] == tags[0]);
        if tags.len() == 1 {
            assert(tags.skip(1).len() == 0);
        } else {
            assert((spec_tag_link(tags[0]@) + " "@ + (spec_tags_joined(tags.skip(1)) + " "@
                + spec_tag_link(t@))) =~= ((spec_tag_link(tags[0]@) + " "@ + spec_tags_joined(
                tags.skip(1),
            )) + " "@ + spec_tag_link(t@)));
        }
    }
}

/// The content a shot renders to: the announcement with its teaser image,
/// then the tag links.
pub open spec fn spec_shot_content(s: Shot) -> Seq<char> {
    "Unveiled a new Shot: ["@ + s.title@ + "]("@ + s.html_url@ + " \"View "@ + spec_escape(
        s.title@,
    ) + " on Dribbble\") [!["@ + s.title@ + "]("@ + s.images.teaser@ + ")]("@ + s.html_url@
        + " \"View "@ + spec_escape(s.title@) + " on Dribbble\")\n\n"@ + spec_tags_joined(s.tags@)
}

fn tag_link(tag: &str) -> (r: Vec<char>)
    ensures
        r@ == spec_tag_link(tag@),
{
    let t = chars_of(tag);
    let esc = markdown_link_title_escape(tag);
    let mut v: Vec<char> = Vec::new();
    let p = chars_of("[#");
    append_chars(&mut v, &p);
    append_chars(&mut v, &t);
    let p = chars_of("](https://dribbble.com/ryanmcgrath/tags/");
    append_chars(&mut v, &p);
    append_chars(&mut v, &t);
    let p = chars_of(" \"View shots tagged ");
    append_chars(&mut v, &p);
    let e = chars_of(esc.as_str());
    append_chars(&mut v, &e);
    let p = chars_of(" on Dribbble\")");
    append_chars(&mut v, &p);
    proof {
        assert(v@ =~= spec_tag_link(tag@));
    }
    v
}

fn tags_joined(tags: &Vec<String>) -> (r: Vec<char>)
    ensures
        r@ == spec_tags_joined(tags@),
{
    let mut v: Vec<char> = Vec::new();
    let mut i: usize = 0;
    proof {
        assert(tags@.take(0) =~= Seq::<String>::empty());
    }
    while i < tags.len()
        invariant
            i <= tags@.len(),
            v@ == spec_tags_joined(tags@.take(i as int)),
        decreases tags@.len() - i,
    {
        if i > 0 {
            let p = chars_of(" ");
            append_chars(&mut v, &p);
        }
        let link = tag_link(tags[i].as_str());
        append_chars(&mut v, &link);
        proof {
            lemma_tags_joined_snoc(tags@.take(i as int), tags@[i as int]);
            assert(tags@.take(i + 1) =~= tags@.take(i as int).push(tags@[i as int]));
        }
        i = i + 1;
    }
    proof {
        assert(tags@.take(tags@.len() as int) =~= tags@);
    }
    v
}

/// Renders one shot to its announcement content. Only the title and tag
/// values are escaped; the description is not part of the content.
pub fn shot_content(shot: &Shot) -> (r: String)
    ensures
        r@ == spec_shot_content(*shot),
{
    let title = chars_of(shot.title.as_str());
    let url = chars_of(shot.html_url.as_str());
    let esc_s = markdown_link_title_escape(shot.title.as_str());
    let esc = chars_of(esc_s.as_str());
    let mut v: Vec<char> = Vec::new();
    let p = chars_of("Unveiled a new Shot: [");
    append_chars(&mut v, &p);
    append_chars(&mut v, &title);
    let p = chars_of("](");
    append_chars(&mut v, &p);
    append_chars(&mut v, &url);
    let p = chars_of(" \"View ");
    append_chars(&mut v, &p);
    append_chars(&mut v, &esc);
    let p = chars_of(" on Dribbble\") [![");
    append_chars(&mut v, &p);
    append_chars(&mut v, &title);
    let p = chars_of("](");
    append_chars(&mut v, &p);
    let teaser = chars_of(shot.images.teaser.as_str());
    append_chars(&mut v, &teaser);
    let p = chars_of(")](");
    append_chars(&mut v, &p);
    append_chars(&mut v, &url);
    let p = chars_of(" \"View ");
    append_chars(&mut v, &p);
    append_chars(&mut v, &esc);
    let p = chars_of(" on Dribbble\")\n\n");
    append_chars(&mut v, &p);
    let tags = tags_joined(&shot.tags);
    append_chars(&mut v, &tags);
    proof {
        assert(v@ =~= spec_shot_content(*shot));
    }
    string_of(&v)
}

/// The activities of a list of shots, in order; a shot whose published
/// timestamp does not parse is dropped.
pub open spec fn spec_transform_shots(list: Seq<Shot>) -> Seq<ActivityView>
    decreases list.len(),
{
    if list.len() == 0 {
        Seq::<ActivityView>::empty()
    } else {
        let init = spec_transform_shots(list.drop_last());
        let s = list.last();
        match crate::time::parse_instant_of(s.published_at@, "%Y-%m-%dT%H:%M:%SZ"@) {
            Some(sec) => init.push(
                ActivityView {
                    activity_type: "dribbble"@,
                    content: spec_shot_content(s),
                    url: s.html_url@,
                    action: "Shot"@,
                    ts: sec,
                },
            ),
            None => init,
        }
    }
}

/// Converts each shot into a feed activity; a shot whose timestamp does
/// not parse is dropped, and one bad shot loses no other.
pub fn transform_shots(list: &Vec<Shot>) -> (r: Vec<Activity>)
    ensures
        r@.map_values(|a: Activity| a@) == spec_transform_shots(list@),
{
    let mut out: Vec<Activity> = Vec::new();
    let mut i: usize = 0;
    proof {
        assert(list@.take(0) =~= Seq::<Shot>::empty());
        assert(out@.map_values(|a: Activity| a@) =~= spec_transform_shots(list@.take(0)));
    }
    while i < list.len()
        invariant
            i <= list@.len(),
            out@.map_values(|a: Activity| a@) == spec_transform_shots(list@.take(i as int)),
        decreases list@.len() - i,
    {
        let ghost out_pre = out@;
        let shot = &list[i];
        proof {
            assert(list@.take(i + 1).drop_last() =~= list@.take(i as int));
            assert(list@.take(i + 1).last() == list@[i as int]);
        }
        match parse_calendar_timestamp(shot.published_at.as_str()) {
            Some(sec) => {
                let content = shot_content(shot);
                let act = Activity::new(
                    "dribbble",
                    content,
                    DateTime {
                        url: shot.html_url.clone(),
                        action: "Shot".to_owned(),
                        ts: sec,
                    },
                );
                proof {
                    assert(act@ =~= spec_transform_shots(list@.take(i + 1)).last());
                }
                out.push(act);
                proof {
                    assert(out@.map_values(|x: Activity| x@) =~= out_pre.map_values(
                        |x: Activity| x@,
                    ).push(act@));
                }
            },
            None => {},
        }
        i = i + 1;
    }
    proof {
        assert(list@.take(list@.len() as int) =~= list@);
    }
    out
}

} // verus!
