use activity_feed::twitter::{
    patch_text, transform_tweets, Entities, ExtendedEntities, HashTag, Media, Tweet, Url, User,
    UserMention,
};

fn empty_entities() -> Entities {
    Entities { hashtags: vec![], user_mentions: vec![], urls: vec![], media: None }
}

fn plain_tweet(text: &str) -> Tweet {
    Tweet {
        id_str: "1".to_string(),
        full_text: text.to_string(),
        lang: "en".to_string(),
        user: User { screen_name: "me".to_string() },
        entities: empty_entities(),
        extended_entities: None,
        retweeted_status: None,
        created_at: "Tue Jan 01 00:00:00 +0000 2019".to_string(),
    }
}

#[test]
fn links_mention_hashtag_and_url() {
    let mut tweet = plain_tweet("Hello @alice check #cool https://x.co");
    tweet.entities.user_mentions.push(UserMention {
        screen_name: "alice".to_string(),
        id_str: "2".to_string(),
        indices: [6, 12],
    });
    tweet.entities.hashtags.push(HashTag { text: "cool".to_string(), indices: [19, 24] });
    tweet.entities.urls.push(Url {
        url: "https://x.co".to_string(),
        display_url: "x.co".to_string(),
        expanded_url: "https://x.co".to_string(),
        indices: [25, 37],
    });
    let out = patch_text(tweet.full_text.clone(), &tweet);
    assert_eq!(
        out,
        "Hello [@alice](https://twitter.com/alice \"View @alice on Twitter\") \
         check [#cool](https://twitter.com/hashtag/cool \"View #cool on Twitter\") \
         [x.co](https://x.co)"
    );
}

#[test]
fn escapes_title_characters_in_links() {
    let mut tweet = plain_tweet("cc @we(ird");
    tweet.entities.user_mentions.push(UserMention {
        screen_name: "we(ird".to_string(),
        id_str: "3".to_string(),
        indices: [3, 10],
    });
    let out = patch_text(tweet.full_text.clone(), &tweet);
    assert_eq!(
        out,
        "cc [@we(ird](https://twitter.com/we(ird \"View @we&#40;ird on Twitter\")"
    );
}

#[test]
fn repost_gets_rt_prefix_with_linked_original() {
    let mut original = plain_tweet("Hi @carol");
    original.user.screen_name = "bob".to_string();
    original.entities.user_mentions.push(UserMention {
        screen_name: "carol".to_string(),
        id_str: "4".to_string(),
        indices: [3, 9],
    });
    let mut repost = plain_tweet("RT @bob: Hi @carol");
    repost.retweeted_status = Some(Box::new(original));
    let out = patch_text(repost.full_text.clone(), &repost);
    assert_eq!(
        out,
        "RT [@bob](https://twitter.com/bob \"View bob on Twitter\") \
         Hi [@carol](https://twitter.com/carol \"View @carol on Twitter\")"
    );
}

#[test]
fn basic_media_is_removed() {
    let mut tweet = plain_tweet("look https://t.co/img");
    tweet.entities.media = Some(vec![Media {
        id_str: "5".to_string(),
        url: "https://t.co/img".to_string(),
        display_url: "pic.twitter.com/img".to_string(),
        expanded_url: "https://twitter.com/x/photo/1".to_string(),
    }]);
    let out = patch_text(tweet.full_text.clone(), &tweet);
    assert_eq!(out, "look ");
}

#[test]
fn extended_media_is_preferred_over_basic_removal() {
    let media = Media {
        id_str: "5".to_string(),
        url: "https://t.co/img".to_string(),
        display_url: "pic.twitter.com/img".to_string(),
        expanded_url: "https://twitter.com/x/photo/1".to_string(),
    };
    let mut tweet = plain_tweet("look https://t.co/img");
    tweet.entities.media = Some(vec![media.clone()]);
    tweet.extended_entities = Some(ExtendedEntities { media: vec![media] });
    let out = patch_text(tweet.full_text.clone(), &tweet);
    assert_eq!(
        out,
        "look [https://pic.twitter.com/img](https://pic.twitter.com/img)"
    );
}

#[test]
fn transform_builds_permalink_and_labels() {
    let mut tweet = plain_tweet("hello");
    tweet.id_str = "99".to_string();
    tweet.user.screen_name = "me".to_string();
    let out = transform_tweets(&vec![tweet]);
    assert_eq!(out.len(), 1);
    assert_eq!(out[0].activity_type, "twitter");
    assert_eq!(out[0].content, "hello");
    assert_eq!(out[0].datetime.url, "https://twitter.com/me/status/99");
    assert_eq!(out[0].datetime.action, "Tweeted");
    assert_eq!(out[0].datetime.ts, 1546300800);
}

#[test]
fn transform_drops_post_with_bad_timestamp_only() {
    let good = plain_tweet("kept");
    let mut bad = plain_tweet("dropped");
    bad.created_at = "yesterday-ish".to_string();
    let out = transform_tweets(&vec![bad, good]);
    assert_eq!(out.len(), 1);
    assert_eq!(out[0].content, "kept");
}
