use activity_feed::github::{
    clean_text, get, patch_text, transform_github, GHKeyError, GitHubActivity, Json, Repository,
};

fn obj(entries: Vec<(&str, Json)>) -> Json {
    Json::Obj(entries.into_iter().map(|(k, v)| (k.to_string(), v)).collect())
}

fn s(text: &str) -> Json {
    Json::Str(text.to_string())
}

fn event(action: &str, payload: Json) -> GitHubActivity {
    GitHubActivity {
        action: action.to_string(),
        repo: Repository {
            name: "me/proj".to_string(),
            url: "https://api.github.com/repos/me/proj".to_string(),
        },
        payload,
        created_at: "2019-01-01T00:00:00Z".to_string(),
    }
}

#[test]
fn get_walks_nested_objects() {
    let payload = obj(vec![("a", obj(vec![("b", s("value"))]))]);
    assert_eq!(get(&payload, "a.b").unwrap(), "value");
}

#[test]
fn get_fails_with_the_missing_key() {
    let payload = obj(vec![("a", obj(vec![("b", s("value"))]))]);
    let err = get(&payload, "a.missing").unwrap_err();
    assert_eq!(err.keypath, "missing");
}

#[test]
fn get_fails_with_whole_path_on_non_string() {
    let payload = obj(vec![("a", obj(vec![("b", Json::Int(3))]))]);
    let err = get(&payload, "a.b").unwrap_err();
    assert_eq!(err.keypath, "a.b");
}

#[test]
fn error_message_names_the_key() {
    let err = GHKeyError::raise("x.y").unwrap_err();
    assert_eq!(err.message(), "Invalid key supplied (x.y). Ignoring!");
}

#[test]
fn push_event_pluralizes_one_commit() {
    let payload = obj(vec![
        ("distinct_size", Json::Int(1)),
        ("before", s("aaa")),
        ("head", s("bbb")),
    ]);
    let out = patch_text(&event("PushEvent", payload)).unwrap();
    assert_eq!(
        out,
        "Pushed [1 commit](https://github.com/me/proj/compare/aaa...bbb \
         \"View these changes on GitHub\") to [@me/proj](https://github.com/me/proj \
         \"View me/proj on GitHub\")"
    );
}

#[test]
fn push_event_pluralizes_two_commits() {
    let payload = obj(vec![
        ("distinct_size", Json::Int(2)),
        ("before", s("aaa")),
        ("head", s("bbb")),
    ]);
    let out = patch_text(&event("PushEvent", payload)).unwrap();
    assert!(out.starts_with("Pushed [2 commits]("));
}

#[test]
fn push_event_pluralizes_zero_commits() {
    let payload = obj(vec![
        ("distinct_size", Json::Int(0)),
        ("before", s("aaa")),
        ("head", s("bbb")),
    ]);
    let out = patch_text(&event("PushEvent", payload)).unwrap();
    assert!(out.starts_with("Pushed [0 commits]("));
}

#[test]
fn push_event_rejects_missing_count() {
    let payload = obj(vec![("before", s("aaa")), ("head", s("bbb"))]);
    let err = patch_text(&event("PushEvent", payload)).unwrap_err();
    assert_eq!(err.keypath, "PushEvent.distinct_size");
}

#[test]
fn push_event_rejects_non_integer_count() {
    let payload = obj(vec![
        ("distinct_size", s("two")),
        ("before", s("aaa")),
        ("head", s("bbb")),
    ]);
    let err = patch_text(&event("PushEvent", payload)).unwrap_err();
    assert_eq!(err.keypath, "PushEvent.distinct_size.parser_error");
}

#[test]
fn unknown_event_type_is_skipped_not_rendered() {
    let err = patch_text(&event("UnknownEventType", obj(vec![]))).unwrap_err();
    assert_eq!(err.keypath, "UnknownEventType");
}

#[test]
fn unknown_event_is_absent_from_transformed_output() {
    let events = vec![event("UnknownEventType", obj(vec![]))];
    assert_eq!(transform_github(&events).len(), 0);
}

#[test]
fn commit_comment_links_urls_and_mentions_but_not_hashtags() {
    let payload = obj(vec![(
        "comment",
        obj(vec![("body", s("Nice work @alice on #42 see https://example.com"))]),
    )]);
    let out = patch_text(&event("CommitCommentEvent", payload)).unwrap();
    assert_eq!(
        out,
        "Nice work [@alice](https://github.com/alice) on #42 see \
         [https://example.com](https://example.com) on \
         [me/proj](https://api.github.com/repos/me/proj \"View me/proj on GitHub\")"
    );
}

#[test]
fn already_linked_url_is_not_linked_twice() {
    let out = clean_text("see [demo](https://example.com)");
    assert_eq!(out, "see [demo](https://example.com)");
}

#[test]
fn quoted_reply_tail_is_cut() {
    let out = clean_text("Fixed upstream\n\n> On Jan 1, someone wrote: blah");
    assert_eq!(out, "Fixed upstream");
}

#[test]
fn issue_comment_escapes_the_title() {
    let payload = obj(vec![
        ("action", s("created")),
        (
            "issue",
            obj(vec![
                ("title", s("Bug (x)")),
                ("html_url", s("https://github.com/me/proj/issues/1")),
            ]),
        ),
        ("comment", obj(vec![("body", s("Fixed"))])),
    ]);
    let out = patch_text(&event("IssueCommentEvent", payload)).unwrap();
    assert_eq!(
        out,
        "Fixed on [Bug (x)](https://github.com/me/proj/issues/1 \
         \"View Bug &#40;x&#41; on GitHub\")"
    );
}

#[test]
fn issue_comment_rejects_non_created_action() {
    let payload = obj(vec![("action", s("edited"))]);
    let err = patch_text(&event("IssueCommentEvent", payload)).unwrap_err();
    assert_eq!(err.keypath, "IssueCommentEvent.payload.action");
}

#[test]
fn create_event_handles_only_repositories() {
    let out = patch_text(&event("CreateEvent", obj(vec![("ref_type", s("repository"))]))).unwrap();
    assert_eq!(
        out,
        "Created [@me/proj](https://github.com/me/proj \"View me/proj on GitHub\")"
    );
    let err =
        patch_text(&event("CreateEvent", obj(vec![("ref_type", s("branch"))]))).unwrap_err();
    assert_eq!(err.keypath, "CreateEvent.ref_type");
}

#[test]
fn fork_event_links_both_repositories() {
    let payload = obj(vec![(
        "forkee",
        obj(vec![
            ("full_name", s("me/fork")),
            ("html_url", s("https://github.com/me/fork")),
        ]),
    )]);
    let out = patch_text(&event("ForkEvent", payload)).unwrap();
    assert_eq!(
        out,
        "Forked [@me/proj](https://github.com/me/proj \"View me/proj on GitHub\") to \
         [@me/fork](https://github.com/me/fork \"View me/fork on GitHub\")"
    );
}

#[test]
fn public_event_announces_open_sourcing() {
    let payload = obj(vec![("repository", obj(vec![("full_name", s("me/proj"))]))]);
    let out = patch_text(&event("PublicEvent", payload)).unwrap();
    assert_eq!(
        out,
        "Open sourced [@me/proj](https://github.com/me/proj \"View me/proj on GitHub\")"
    );
}

#[test]
fn release_event_names_the_tag() {
    let payload = obj(vec![
        ("repository", obj(vec![("full_name", s("me/proj"))])),
        (
            "release",
            obj(vec![
                ("tag_name", s("v1.0")),
                ("html_url", s("https://github.com/me/proj/releases/v1.0")),
            ]),
        ),
    ]);
    let out = patch_text(&event("ReleaseEvent", payload)).unwrap();
    assert_eq!(
        out,
        "Released [@me/proj v1.0](https://github.com/me/proj/releases/v1.0 \
         \"View this release on GitHub\")"
    );
}

#[test]
fn issues_event_opened_and_closed() {
    let opened = obj(vec![
        ("action", s("opened")),
        (
            "issue",
            obj(vec![
                ("title", s("A bug")),
                ("html_url", s("https://github.com/me/proj/issues/2")),
            ]),
        ),
        ("repository", obj(vec![("full_name", s("me/proj"))])),
    ]);
    let out = patch_text(&event("IssuesEvent", opened)).unwrap();
    assert_eq!(
        out,
        "Opened [A bug](https://github.com/me/proj/issues/2 \"View A bug on GitHub\") in \
         [@me/proj](https://github.com/me/proj \"View me/proj on GitHub\")"
    );
    let closed = obj(vec![
        ("action", s("closed")),
        (
            "issue",
            obj(vec![
                ("title", s("A bug")),
                ("html_url", s("https://github.com/me/proj/issues/2")),
            ]),
        ),
    ]);
    let out = patch_text(&event("IssuesEvent", closed)).unwrap();
    assert!(out.starts_with("Closed [A bug]("));
}

#[test]
fn pull_request_event_renders_both_actions() {
    let payload = |action: &str| {
        obj(vec![
            ("action", s(action)),
            (
                "pull_request",
                obj(vec![
                    (
                        "base",
                        obj(vec![("repo", obj(vec![("full_name", s("me/proj"))]))]),
                    ),
                    ("title", s("Add thing")),
                    ("html_url", s("https://github.com/me/proj/pull/3")),
                ]),
            ),
        ])
    };
    let out = patch_text(&event("PullRequestEvent", payload("opened"))).unwrap();
    assert_eq!(
        out,
        "Opened a pull request in [@me/proj](https://github.com/me/proj \
         \"View me/proj on GitHub\"):\n\n[Add thing](https://github.com/me/proj/pull/3 \
         \"View this PR on GitHub\")"
    );
    let out = patch_text(&event("PullRequestEvent", payload("closed"))).unwrap();
    assert!(out.starts_with("Closed a pull request in "));
    let err = patch_text(&event("PullRequestEvent", payload("reviewed"))).unwrap_err();
    assert_eq!(err.keypath, "PullRequestEvent.action");
}

#[test]
fn transform_keeps_good_events_and_drops_bad_ones() {
    let good = event("CreateEvent", obj(vec![("ref_type", s("repository"))]));
    let bad = event("UnknownEventType", obj(vec![]));
    let mut stale = event("CreateEvent", obj(vec![("ref_type", s("repository"))]));
    stale.created_at = "never".to_string();
    let out = transform_github(&vec![bad, good, stale]);
    assert_eq!(out.len(), 1);
    assert_eq!(out[0].activity_type, "github");
    assert_eq!(out[0].datetime.action, "On");
    assert_eq!(out[0].datetime.url, "");
    assert_eq!(out[0].datetime.ts, 1546300800);
}
