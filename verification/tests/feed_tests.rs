use activity_feed::dribbble::{transform_shots, ImageSet, Shot};
use activity_feed::{assemble_feed, sort_activities, Activity, DateTime};

fn activity(label: &str, ts: i64) -> Activity {
    Activity::new(
        "test",
        label.to_string(),
        DateTime { url: String::new(), action: "On".to_string(), ts },
    )
}

#[test]
fn feed_is_sorted_newest_first() {
    let t: i64 = 1546300800;
    let items = vec![
        activity("an hour old", t - 3600),
        activity("three days old", t - 3 * 86400),
        activity("five minutes old", t - 300),
    ];
    let out = assemble_feed(items);
    let labels: Vec<&str> = out.iter().map(|a| a.content.as_str()).collect();
    assert_eq!(labels, vec!["five minutes old", "an hour old", "three days old"]);
}

#[test]
fn feed_keeps_the_twelve_most_recent_of_twenty() {
    let t: i64 = 1546300800;
    let mut items = vec![];
    for i in 0..20i64 {
        items.push(activity(&format!("item {}", i), t - i * 60));
    }
    let out = assemble_feed(items);
    assert_eq!(out.len(), 12);
    for (k, a) in out.iter().enumerate() {
        assert_eq!(a.content, format!("item {}", k));
        assert_eq!(a.datetime.ts, t - (k as i64) * 60);
    }
}

#[test]
fn short_feed_is_kept_whole() {
    let out = assemble_feed(vec![activity("only", 5)]);
    assert_eq!(out.len(), 1);
    assert_eq!(out[0].content, "only");
}

#[test]
fn sort_keeps_every_item() {
    let items = vec![activity("a", 1), activity("b", 3), activity("c", 2)];
    let out = sort_activities(items);
    let ts: Vec<i64> = out.iter().map(|a| a.datetime.ts).collect();
    assert_eq!(ts, vec![3, 2, 1]);
}

#[test]
fn activity_new_copies_its_parts() {
    let a = Activity::new(
        "twitter",
        "content".to_string(),
        DateTime { url: "u".to_string(), action: "Tweeted".to_string(), ts: 9 },
    );
    assert_eq!(a.activity_type, "twitter");
    assert_eq!(a.content, "content");
    assert_eq!(a.datetime.url, "u");
    assert_eq!(a.datetime.action, "Tweeted");
    assert_eq!(a.datetime.ts, 9);
}

fn shot(title: &str, published_at: &str, tags: Vec<&str>) -> Shot {
    Shot {
        id: 1,
        title: title.to_string(),
        description: "desc".to_string(),
        images: ImageSet {
            hidpi: None,
            normal: "https://cdn.example/normal.png".to_string(),
            teaser: "https://cdn.example/teaser.png".to_string(),
        },
        html_url: "https://dribbble.com/shots/1".to_string(),
        width: 400,
        height: 300,
        tags: tags.into_iter().map(|t| t.to_string()).collect(),
        published_at: published_at.to_string(),
        updated_at: published_at.to_string(),
    }
}

#[test]
fn shot_content_announces_with_teaser_and_tags() {
    let out = transform_shots(&vec![shot("My (cool) shot", "2019-01-01T00:00:00Z", vec![
        "ui", "web",
    ])]);
    assert_eq!(out.len(), 1);
    assert_eq!(
        out[0].content,
        "Unveiled a new Shot: [My (cool) shot](https://dribbble.com/shots/1 \
         \"View My &#40;cool&#41; shot on Dribbble\") \
         [![My (cool) shot](https://cdn.example/teaser.png)](https://dribbble.com/shots/1 \
         \"View My &#40;cool&#41; shot on Dribbble\")\n\n\
         [#ui](https://dribbble.com/ryanmcgrath/tags/ui \"View shots tagged ui on Dribbble\") \
         [#web](https://dribbble.com/ryanmcgrath/tags/web \"View shots tagged web on Dribbble\")"
    );
    assert_eq!(out[0].activity_type, "dribbble");
    assert_eq!(out[0].datetime.action, "Shot");
    assert_eq!(out[0].datetime.url, "https://dribbble.com/shots/1");
    assert_eq!(out[0].datetime.ts, 1546300800);
}

#[test]
fn shot_with_bad_timestamp_is_dropped() {
    let out = transform_shots(&vec![
        shot("kept", "2019-01-01T00:00:00Z", vec![]),
        shot("dropped", "whenever", vec![]),
    ]);
    assert_eq!(out.len(), 1);
    assert!(out[0].content.contains("[kept]"));
}
