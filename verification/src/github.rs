//! The code-host provider: dispatches a typed event with a loosely-shaped
//! JSON payload to one of a fixed set of sentence templates, reading nested
//! fields through a dotted-path accessor and linking urls and mentions
//! found in comment bodies.

use vstd::prelude::*;

use crate::text::{
    append_chars, chars_equal, chars_of, find_first, replace_chars, spec_find, spec_replace,
    split_chars, spec_split, str_eq, string_of,
};
use crate::{markdown_link_title_escape, spec_escape};
use crate::{Activity, ActivityView, DateTime};

verus! {

/// A JSON-like payload tree: the nested, loosely-typed part of an event.
/// Numbers carry only what the transforms read, whole 64-bit integers.
pub enum Json {
    Null,
    Bool(bool),
    Int(i64),
    Str(String),
    Arr(Vec<Json>),
    Obj(Vec<(String, Json)>),
}

/// The error raised when a payload lacks a field the template needs, or
/// holds the wrong shape of value under it.
#[derive(Debug)]
pub struct GHKeyError {
    pub keypath: String,
}

impl GHKeyError {
    /// A failed lookup of `keypath`, as the `Result` the accessors return.
    pub fn raise(keypath: &str) -> (r: Result<String, GHKeyError>)
        ensures
            r is Err,
            r->Err_0.keypath@ == keypath@,
    {
        Err(GHKeyError { keypath: keypath.to_owned() })
    }

    /// The diagnostic line logged when an event is skipped.
    pub fn message(&self) -> (r: String)
        ensures
            r@ == "Invalid key supplied ("@ + self.keypath@ + "). Ignoring!"@,
    {
        let mut v: Vec<char> = Vec::new();
        let p = chars_of("Invalid key supplied (");
        append_chars(&mut v, &p);
        let k = chars_of(self.keypath.as_str());
        append_chars(&mut v, &k);
        let p = chars_of("). Ignoring!");
        append_chars(&mut v, &p);
        proof {
            assert(v@ =~= "Invalid key supplied ("@ + self.keypath@ + "). Ignoring!"@);
        }
        string_of(&v)
    }
}

/// The value under `key` among an object's entries, first match first.
pub open spec fn spec_obj_lookup(entries: Seq<(String, Json)>, key: Seq<char>) -> Option<Json>
    decreases entries.len(),
{
    if entries.len() == 0 {
        None
    } else if entries[0].0@ == key {
        Some(entries[0].1)
    } else {
        spec_obj_lookup(entries.skip(1), key)
    }
}

/// The value under `key` in `j`: only an object has keys.
pub open spec fn spec_get_key(j: Json, key: Seq<char>) -> Option<Json> {
    match j {
        Json::Obj(entries) => spec_obj_lookup(entries@, key),
        _ => None,
    }
}

/// Walks `j` key by key; a missing key fails with that key.
pub open spec fn spec_walk(j: Json, keys: Seq<Seq<char>>) -> Result<Json, Seq<char>>
    decreases keys.len(),
{
    if keys.len() == 0 {
        Ok(j)
    } else {
        match spec_get_key(j, keys[0]) {
            Some(next) => spec_walk(next, keys.skip(1)),
            None => Err(keys[0]),
        }
    }
}

/// The string under the dotted path `path` in `j`: a missing key fails
/// with that key, a non-string final value fails with the whole path.
pub open spec fn spec_get(j: Json, path: Seq<char>) -> Result<Seq<char>, Seq<char>> {
    match spec_walk(j, spec_split(path, '.')) {
        Ok(v) => match v {
            Json::Str(s) => Ok(s@),
            _ => Err(path),
        },
        Err(k) => Err(k),
    }
}

/// Reads the string under the dotted path `path`, walking the payload tree
/// key by key; never substitutes a default.
pub fn get(value: &Json, path: &str) -> (r: Result<String, GHKeyError>)
    ensures
        match spec_get(*value, path@) {
            Ok(s) => r is Ok && r->Ok_0@ == s,
            Err(k) => r is Err && r->Err_0.keypath@ == k,
        },
{
    let pv = chars_of(path);
    let segs = split_chars(&pv, '.');
    let ghost keys = spec_split(path@, '.');
    let mut cur: &Json = value;
    let mut i: usize = 0;
    proof {
        assert(keys.skip(0) =~= keys);
    }
    while i < segs.len()
        invariant
            i <= segs@.len(),
            segs.deep_view() == keys,
            keys == spec_split(path@, '.'),
            spec_walk(*value, keys) == spec_walk(*cur, keys.skip(i as int)),
        decreases segs@.len() - i,
    {
        let seg = &segs[i];
        proof {
            assert(keys.skip(i as int)[0] == keys[i as int]);
            assert(keys.skip(i as int).skip(1) =~= keys.skip(i + 1));
            assert(segs@[i as int]@ == keys[i as int]);
        }
        match cur {
            Json::Obj(entries) => {
                let ghost all = entries@;
                let ghost key = keys[i as int];
                let mut k: usize = 0;
                let mut found: Option<&Json> = None;
                proof {
                    assert(all.skip(0) =~= all);
                }
                while k < entries.len() && found.is_none()
                    invariant
                        k <= all.len(),
                        entries@ == all,
                        seg@ == key,
                        match found {
                            None => spec_obj_lookup(all, key) == spec_obj_lookup(
                                all.skip(k as int),
                                key,
                            ),
                            Some(v) => spec_obj_lookup(all, key) == Some(*v),
                        },
                    decreases all.len() - k, (if found is None {
                        1int
                    } else {
                        0int
                    }),
                {
                    proof {
                        assert(all.skip(k as int)[0] == all[k as int]);
                        assert(all.skip(k as int).skip(1) =~= all.skip(k + 1));
                    }
                    let name = chars_of(entries[k].0.as_str());
                    if chars_equal(&name, seg) {
                        found = Some(&entries[k].1);
                        proof {
                            assert(spec_obj_lookup(all, key) == Some(all[k as int].1));
                        }
                    } else {
                        k = k + 1;
                    }
                }
                match found {
                    Some(next) => {
                        proof {
                            assert(spec_get_key(*cur, keys[i as int]) == Some(*next));
                        }
                        cur = next;
                    },
                    None => {
                        proof {
                            assert(all.skip(all.len() as int) =~= Seq::<(String, Json)>::empty());
                            assert(spec_get_key(*cur, keys[i as int]) is None);
                        }
                        return Err(GHKeyError { keypath: string_of(seg) });
                    },
                }
            },
            _ => {
                proof {
                    assert(spec_get_key(*cur, keys[i as int]) is None);
                }
                return Err(GHKeyError { keypath: string_of(seg) });
            },
        }
        i = i + 1;
    }
    proof {
        assert(keys.skip(keys.len() as int) =~= Seq::<Seq<char>>::empty());
        assert(spec_walk(*value, keys) == Ok::<Json, Seq<char>>(*cur));
    }
    match cur {
        Json::Str(s) => Ok(s.clone()),
        _ => Err(GHKeyError { keypath: path.to_owned() }),
    }
}

/// The value under one key in `j`, when `j` is an object that has it.
pub fn get_key<'a>(value: &'a Json, key: &Vec<char>) -> (r: Option<&'a Json>)
    ensures
        match spec_get_key(*value, key@) {
            Some(v) => r is Some && *r->0 == v,
            None => r is None,
        },
{
    match value {
        Json::Obj(entries) => {
            let ghost all = entries@;
            let mut k: usize = 0;
            let mut found: Option<&Json> = None;
            proof {
                assert(all.skip(0) =~= all);
            }
            while k < entries.len() && found.is_none()
                invariant
                    k <= all.len(),
                    entries@ == all,
                    match found {
                        None => spec_obj_lookup(all, key@) == spec_obj_lookup(
                            all.skip(k as int),
                            key@,
                        ),
                        Some(v) => spec_obj_lookup(all, key@) == Some(*v),
                    },
                decreases all.len() - k, (if found is None {
                    1int
                } else {
                    0int
                }),
            {
                proof {
                    assert(all.skip(k as int)[0] == all[k as int]);
                    assert(all.skip(k as int).skip(1) =~= all.skip(k + 1));
                }
                let name = chars_of(entries[k].0.as_str());
                if chars_equal(&name, key) {
                    found = Some(&entries[k].1);
                    proof {
                        assert(spec_obj_lookup(all, key@) == Some(all[k as int].1));
                    }
                } else {
                    k = k + 1;
                }
            }
            proof {
                if found is None {
                    assert(all.skip(all.len() as int) =~= Seq::<(String, Json)>::empty());
                }
            }
            found
        },
        _ => None,
    }
}

/// The url- and email-shaped spans that linkify's scanner finds in a text,
/// in order of appearance.
pub uninterp spec fn links_of(s: Seq<char>) -> Seq<Seq<char>>;

/// Relies on linkify's `LinkFinder::links`: scans the text for url- and
/// email-shaped spans and yields each span's text in order of appearance;
/// the result is a function of the text alone.
#[verifier::external_body]
fn find_links(s: &str) -> (r: Vec<String>)
    ensures
        r.deep_view() == links_of(s@),
{
    let finder = linkify::LinkFinder::new();
    finder.links(s).map(|l| l.as_str().to_string()).collect()
}

/// The `@name` tokens that the mention pattern finds in a text, in order
/// of appearance.
pub uninterp spec fn mentions_of(s: Seq<char>) -> Seq<Seq<char>>;

/// Relies on regex's `Regex::new` and `Regex::captures_iter` with the
/// fixed pattern `(@[\w_-]+)`: the pattern is valid, so building it cannot
/// fail, and matching yields each `@name` token in order of appearance, a
/// function of the text alone.
#[verifier::external_body]
fn find_mentions(s: &str) -> (r: Vec<String>)
    ensures
        r.deep_view() == mentions_of(s@),
{
    let re = regex::Regex::new("(@[\\w_-]+)").unwrap();
    re.captures_iter(s).map(|c| c.get(0).unwrap().as_str().to_owned()).collect()
}

/// A comment body cut at the first quoted-reply marker.
pub open spec fn spec_cut(s: Seq<char>) -> Seq<char> {
    match spec_find(s, "\n\n> On"@) {
        Some(j) => s.take(j),
        None => s,
    }
}

/// One detected url linked in place, unless its first occurrence already
/// sits inside a markdown link: a `](` right before it. A lookback that
/// would leave the text counts as not yet linked.
pub open spec fn spec_link_step(t: Seq<char>, u: Seq<char>) -> Seq<char> {
    match spec_find(t, u) {
        Some(j) => if j >= 2 && t[j - 2] == ']' && t[j - 1] == '(' {
            t
        } else {
            spec_replace(t, u, "["@ + u + "]("@ + u + ")"@)
        },
        None => t,
    }
}

/// Already-linked text is never linked twice: when the first occurrence of
/// a detected url sits right after a `](`, the link step leaves the text
/// exactly as it was.
pub proof fn lemma_link_step_already_linked(t: Seq<char>, u: Seq<char>)
    requires
        spec_find(t, u) matches Some(j) && j >= 2 && t[j - 2] == ']' && t[j - 1] == '(',
    ensures
        spec_link_step(t, u) == t,
{
}

pub open spec fn spec_fold_links(t: Seq<char>, us: Seq<Seq<char>>) -> Seq<char>
    decreases us.len(),
{
    if us.len() == 0 {
        t
    } else {
        spec_fold_links(spec_link_step(t, us[0]), us.skip(1))
    }
}

/// One `@name` token linked to that user's profile page.
pub open spec fn spec_gh_mention_step(t: Seq<char>, m: Seq<char>) -> Seq<char> {
    spec_replace(
        t,
        m,
        "["@ + m + "](https://github.com/"@ + spec_replace(m, "@"@, Seq::<char>::empty()) + ")"@,
    )
}

pub open spec fn spec_fold_gh_mentions(t: Seq<char>, ms: Seq<Seq<char>>) -> Seq<char>
    decreases ms.len(),
{
    if ms.len() == 0 {
        t
    } else {
        spec_fold_gh_mentions(spec_gh_mention_step(t, ms[0]), ms.skip(1))
    }
}

/// A comment body made safe for the feed: cut at the first quoted-reply
/// marker, bare urls linked (never twice), `@name` tokens linked to
/// profile pages. Hashtag-shaped tokens stay as they are: on a code host
/// they could name an issue of any repository.
pub open spec fn spec_clean_text(s: Seq<char>) -> Seq<char> {
    let linked = spec_fold_links(spec_cut(s), links_of(s));
    spec_fold_gh_mentions(linked, mentions_of(linked))
}

/// Links urls and mentions inside a comment body.
pub fn clean_text(s: &str) -> (r: String)
    ensures
        r@ == spec_clean_text(s@),
{
    let links = find_links(s);
    let ghost us = links.deep_view();
    let sv = chars_of(s);
    let marker = chars_of("\n\n> On");
    proof {
        crate::text::lemma_find_bounds(sv@, marker@);
    }
    let mut cur: Vec<char> = match find_first(&sv, &marker) {
        Some(j) => {
            let mut c = sv;
            c.truncate(j);
            proof {
                assert(c@ =~= spec_cut(s@));
            }
            c
        },
        None => sv,
    };
    let ghost cut0 = cur@;
    let mut i: usize = 0;
    proof {
        assert(us.skip(0) =~= us);
    }
    while i < links.len()
        invariant
            i <= us.len(),
            links.deep_view() == us,
            spec_fold_links(cut0, us) == spec_fold_links(cur@, us.skip(i as int)),
        decreases us.len() - i,
    {
        let u = chars_of(links[i].as_str());
        proof {
            assert(us.skip(i as int)[0] == us[i as int]);
            assert(us.skip(i as int).skip(1) =~= us.skip(i + 1));
            assert(u@ == us[i as int]);
        }
        proof {
            crate::text::lemma_find_bounds(cur@, u@);
        }
        let next = match find_first(&cur, &u) {
            Some(j) => {
                if j >= 2 && cur[j - 2] == ']' && cur[j - 1] == '(' {
                    cur
                } else {
                    let mut rep: Vec<char> = Vec::new();
                    let p = chars_of("[");
                    append_chars(&mut rep, &p);
                    append_chars(&mut rep, &u);
                    let p = chars_of("](");
                    append_chars(&mut rep, &p);
                    append_chars(&mut rep, &u);
                    let p = chars_of(")");
                    append_chars(&mut rep, &p);
                    proof {
                        assert(rep@ =~= "["@ + u@ + "]("@ + u@ + ")"@);
                    }
                    replace_chars(&cur, &u, &rep)
                }
            },
            None => cur,
        };
        proof {
            assert(next@ == spec_link_step(cur@, us[i as int]));
        }
        cur = next;
        i = i + 1;
    }
    proof {
        assert(us.skip(us.len() as int) =~= Seq::<Seq<char>>::empty());
        assert(cur@ == spec_fold_links(cut0, us));
    }
    let linked = string_of(&cur);
    let mentions = find_mentions(linked.as_str());
    let ghost ms = mentions.deep_view();
    let ghost linked0 = cur@;
    let mut j: usize = 0;
    proof {
        assert(ms.skip(0) =~= ms);
    }
    while j < mentions.len()
        invariant
            j <= ms.len(),
            mentions.deep_view() == ms,
            spec_fold_gh_mentions(linked0, ms) == spec_fold_gh_mentions(cur@, ms.skip(j as int)),
        decreases ms.len() - j,
    {
        let m = chars_of(mentions[j].as_str());
        proof {
            assert(ms.skip(j as int)[0] == ms[j as int]);
            assert(ms.skip(j as int).skip(1) =~= ms.skip(j + 1));
            assert(m@ == ms[j as int]);
        }
        let at = chars_of("@");
        let empty: Vec<char> = Vec::new();
        let handle = replace_chars(&m, &at, &empty);
        proof {
            assert(empty@ =~= Seq::<char>::empty());
        }
        let mut rep: Vec<char> = Vec::new();
        let p = chars_of("[");
        append_chars(&mut rep, &p);
        append_chars(&mut rep, &m);
        let p = chars_of("](https://github.com/");
        append_chars(&mut rep, &p);
        append_chars(&mut rep, &handle);
        let p = chars_of(")");
        append_chars(&mut rep, &p);
        proof {
            assert(rep@ =~= "["@ + m@ + "](https://github.com/"@ + spec_replace(
                m@,
                "@"@,
                Seq::<char>::empty(),
            ) + ")"@);
        }
        let next = replace_chars(&cur, &m, &rep);
        proof {
            assert(next@ == spec_gh_mention_step(cur@, ms[j as int]));
        }
        cur = next;
        j = j + 1;
    }
    proof {
        assert(ms.skip(ms.len() as int) =~= Seq::<Seq<char>>::empty());
    }
    string_of(&cur)
}

/// The repository a batch of events belongs to.
pub struct Repository {
    pub name: String,
    pub url: String,
}

/// One event of the code-host activity stream.
pub struct GitHubActivity {
    /// The event's discriminant, e.g. `PushEvent`.
    pub action: String,
    pub repo: Repository,
    pub payload: Json,
    /// The raw provider timestamp, parsed during the transform.
    pub created_at: String,
}

/// The standing link to a repository: label, browse url and escaped title.
pub open spec fn spec_repo_link(name: Seq<char>) -> Seq<char> {
    "[@"@ + name + "](https://github.com/"@ + name + " \"View "@ + spec_escape(name)
        + " on GitHub\")"@
}

/// The standing link to an issue: its title, its page and an escaped title.
pub open spec fn spec_issue_link(title: Seq<char>, url: Seq<char>) -> Seq<char> {
    "["@ + title + "]("@ + url + " \"View "@ + spec_escape(title) + " on GitHub\")"@
}

/// The label of a push: the commit count, singular only for exactly one.
pub open spec fn spec_commit_label(n: int) -> Seq<char> {
    crate::text::spec_decimal(n) + " commit"@ + (if n == 1 {
        Seq::<char>::empty()
    } else {
        "s"@
    })
}

/// The compare page between two refs of a repository.
pub open spec fn spec_compare_url(repo: Seq<char>, before: Seq<char>, head: Seq<char>) -> Seq<
    char,
> {
    "https://github.com/"@ + repo + "/compare/"@ + before + "..."@ + head
}

/// The discriminants the dispatch handles; everything else is skipped.
pub open spec fn spec_supported_action(a: Seq<char>) -> bool {
    ||| a == "CommitCommentEvent"@
    ||| a == "IssueCommentEvent"@
    ||| a == "ForkEvent"@
    ||| a == "CreateEvent"@
    ||| a == "IssuesEvent"@
    ||| a == "PullRequestEvent"@
    ||| a == "PushEvent"@
    ||| a == "PublicEvent"@
    ||| a == "ReleaseEvent"@
}

/// The sentence an event renders to, or the key path (or unsupported
/// discriminant) on which it is skipped. A closed dispatch: nothing
/// outside `spec_supported_action` produces content.
pub open spec fn spec_patch_github(a: GitHubActivity) -> Result<Seq<char>, Seq<char>> {
    if a.action@ == "CommitCommentEvent"@ {
        match spec_get(a.payload, "comment.body"@) {
            Ok(body) => Ok(
                spec_clean_text(body) + " on ["@ + a.repo.name@ + "]("@ + a.repo.url@ + " \"View "@
                    + spec_escape(a.repo.name@) + " on GitHub\")"@,
            ),
            Err(k) => Err(k),
        }
    } else if a.action@ == "IssueCommentEvent"@ {
        match spec_get(a.payload, "action"@) {
            Ok(act) => if act != "created"@ {
                Err("IssueCommentEvent.payload.action"@)
            } else {
                match spec_get(a.payload, "issue.title"@) {
                    Ok(title) => match spec_get(a.payload, "comment.body"@) {
                        Ok(body) => match spec_get(a.payload, "issue.html_url"@) {
                            Ok(url) => Ok(
                                spec_clean_text(body) + " on "@ + spec_issue_link(title, url),
                            ),
                            Err(k) => Err(k),
                        },
                        Err(k) => Err(k),
                    },
                    Err(k) => Err(k),
                }
            },
            Err(k) => Err(k),
        }
    } else if a.action@ == "ForkEvent"@ {
        match spec_get(a.payload, "forkee.full_name"@) {
            Ok(full_name) => match spec_get(a.payload, "forkee.html_url"@) {
                Ok(url) => Ok(
                    "Forked "@ + spec_repo_link(a.repo.name@) + " to [@"@ + full_name + "]("@ + url
                        + " \"View "@ + spec_escape(full_name) + " on GitHub\")"@,
                ),
                Err(k) => Err(k),
            },
            Err(k) => Err(k),
        }
    } else if a.action@ == "CreateEvent"@ {
        match spec_get(a.payload, "ref_type"@) {
            Ok(rt) => if rt == "repository"@ {
                Ok("Created "@ + spec_repo_link(a.repo.name@))
            } else {
                Err("CreateEvent.ref_type"@)
            },
            Err(k) => Err(k),
        }
    } else if a.action@ == "IssuesEvent"@ {
        match spec_get(a.payload, "action"@) {
            Ok(act) => if act == "opened"@ {
                match spec_get(a.payload, "issue.title"@) {
                    Ok(title) => match spec_get(a.payload, "repository.full_name"@) {
                        Ok(repo) => match spec_get(a.payload, "issue.html_url"@) {
                            Ok(url) => Ok(
                                "Opened "@ + spec_issue_link(title, url) + " in "@ + spec_repo_link(
                                    repo,
                                ),
                            ),
                            Err(k) => Err(k),
                        },
                        Err(k) => Err(k),
                    },
                    Err(k) => Err(k),
                }
            } else if act == "closed"@ {
                match spec_get(a.payload, "issue.title"@) {
                    Ok(title) => match spec_get(a.payload, "issue.html_url"@) {
                        Ok(url) => Ok(
                            "Closed "@ + spec_issue_link(title, url) + " in "@ + spec_repo_link(
                                a.repo.name@,
                            ),
                        ),
                        Err(k) => Err(k),
                    },
                    Err(k) => Err(k),
                }
            } else {
                Err("IssuesEvent.action"@)
            },
            Err(k) => Err(k),
        }
    } else if a.action@ == "PullRequestEvent"@ {
        match spec_get(a.payload, "action"@) {
            Ok(act) => if act == "opened"@ || act == "closed"@ {
                match spec_get(a.payload, "pull_request.base.repo.full_name"@) {
                    Ok(full_name) => match spec_get(a.payload, "pull_request.title"@) {
                        Ok(title) => match spec_get(a.payload, "pull_request.html_url"@) {
                            Ok(url) => Ok(
                                (if act == "opened"@ {
                                    "Opened a pull request in "@
                                } else {
                                    "Closed a pull request in "@
                                }) + spec_repo_link(full_name) + ":\n\n["@ + title + "]("@ + url
                                    + " \"View this PR on GitHub\")"@,
                            ),
                            Err(k) => Err(k),
                        },
                        Err(k) => Err(k),
                    },
                    Err(k) => Err(k),
                }
            } else {
                Err("PullRequestEvent.action"@)
            },
            Err(k) => Err(k),
        }
    } else if a.action@ == "PushEvent"@ {
        match spec_get_key(a.payload, "distinct_size"@) {
            None => Err("PushEvent.distinct_size"@),
            Some(v) => match v {
                Json::Int(n) => match spec_get(a.payload, "before"@) {
                    Ok(before) => match spec_get(a.payload, "head"@) {
                        Ok(head) => Ok(
                            "Pushed ["@ + spec_commit_label(n as int) + "]("@ + spec_compare_url(
                                a.repo.name@,
                                before,
                                head,
                            ) + " \"View these changes on GitHub\") to "@ + spec_repo_link(
                                a.repo.name@,
                            ),
                        ),
                        Err(k) => Err(k),
                    },
                    Err(k) => Err(k),
                },
                _ => Err("PushEvent.distinct_size.parser_error"@),
            },
        }
    } else if a.action@ == "PublicEvent"@ {
        match spec_get(a.payload, "repository.full_name"@) {
            Ok(full_name) => Ok("Open sourced "@ + spec_repo_link(full_name)),
            Err(k) => Err(k),
        }
    } else if a.action@ == "ReleaseEvent"@ {
        match spec_get(a.payload, "repository.full_name"@) {
            Ok(full_name) => match spec_get(a.payload, "release.tag_name"@) {
                Ok(tag) => match spec_get(a.payload, "release.html_url"@) {
                    Ok(url) => Ok(
                        "Released [@"@ + full_name + " "@ + tag + "]("@ + url
                            + " \"View this release on GitHub\")"@,
                    ),
                    Err(k) => Err(k),
                },
                Err(k) => Err(k),
            },
            Err(k) => Err(k),
        }
    } else {
        Err(a.action@)
    }
}

fn repo_link(name: &str) -> (r: Vec<char>)
    ensures
        r@ == spec_repo_link(name@),
{
    let n = chars_of(name);
    let esc = markdown_link_title_escape(name);
    let mut v: Vec<char> = Vec::new();
    let p = chars_of("[@");
    append_chars(&mut v, &p);
    append_chars(&mut v, &n);
    let p = chars_of("](https://github.com/");
    append_chars(&mut v, &p);
    append_chars(&mut v, &n);
    let p = chars_of(" \"View ");
    append_chars(&mut v, &p);
    let e = chars_of(esc.as_str());
    append_chars(&mut v, &e);
    let p = chars_of(" on GitHub\")");
    append_chars(&mut v, &p);
    proof {
        assert(v@ =~= spec_repo_link(name@));
    }
    v
}

fn issue_link(title: &str, url: &str) -> (r: Vec<char>)
    ensures
        r@ == spec_issue_link(title@, url@),
{
    let t = chars_of(title);
    let esc = markdown_link_title_escape(title);
    let mut v: Vec<char> = Vec::new();
    let p = chars_of("[");
    append_chars(&mut v, &p);
    append_chars(&mut v, &t);
    let p = chars_of("](");
    append_chars(&mut v, &p);
    let u = chars_of(url);
    append_chars(&mut v, &u);
    let p = chars_of(" \"View ");
    append_chars(&mut v, &p);
    let e = chars_of(esc.as_str());
    append_chars(&mut v, &e);
    let p = chars_of(" on GitHub\")");
    append_chars(&mut v, &p);
    proof {
        assert(v@ =~= spec_issue_link(title@, url@));
    }
    v
}

/// Renders one event to its sentence, or says why it is skipped. The
/// dispatch is closed: an unrecognized discriminant always comes back as
/// an error naming it, never as made-up content.
#[verifier::rlimit(30)]
pub fn patch_text(activity: &GitHubActivity) -> (r: Result<String, GHKeyError>)
    ensures
        match spec_patch_github(*activity) {
            Ok(c) => r is Ok && r->Ok_0@ == c,
            Err(k) => r is Err && r->Err_0.keypath@ == k,
        },
        !spec_supported_action(activity.action@) ==> r is Err && r->Err_0.keypath@
            == activity.action@,
{
    let action = activity.action.as_str();
    if str_eq(action, "CommitCommentEvent") {
        let body = match get(&activity.payload, "comment.body") {
            Ok(v) => v,
            Err(e) => {
                return Err(e);
            },
        };
        let cleaned = clean_text(body.as_str());
        let mut v: Vec<char> = Vec::new();
        let c = chars_of(cleaned.as_str());
        append_chars(&mut v, &c);
        let p = chars_of(" on [");
        append_chars(&mut v, &p);
        let n = chars_of(activity.repo.name.as_str());
        append_chars(&mut v, &n);
        let p = chars_of("](");
        append_chars(&mut v, &p);
        let u = chars_of(activity.repo.url.as_str());
        append_chars(&mut v, &u);
        let p = chars_of(" \"View ");
        append_chars(&mut v, &p);
        let esc = markdown_link_title_escape(activity.repo.name.as_str());
        let e = chars_of(esc.as_str());
        append_chars(&mut v, &e);
        let p = chars_of(" on GitHub\")");
        append_chars(&mut v, &p);
        proof {
            assert(v@ =~= spec_clean_text(body@) + " on ["@ + activity.repo.name@ + "]("@
                + activity.repo.url@ + " \"View "@ + spec_escape(activity.repo.name@)
                + " on GitHub\")"@);
        }
        Ok(string_of(&v))
    } else if str_eq(action, "IssueCommentEvent") {
        let act = match get(&activity.payload, "action") {
            Ok(v) => v,
            Err(e) => {
                return Err(e);
            },
        };
        if !str_eq(act.as_str(), "created") {
            return GHKeyError::raise("IssueCommentEvent.payload.action");
        }
        let title = match get(&activity.payload, "issue.title") {
            Ok(v) => v,
            Err(e) => {
                return Err(e);
            },
        };
        let body = match get(&activity.payload, "comment.body") {
            Ok(v) => v,
            Err(e) => {
                return Err(e);
            },
        };
        let url = match get(&activity.payload, "issue.html_url") {
            Ok(v) => v,
            Err(e) => {
                return Err(e);
            },
        };
        let cleaned = clean_text(body.as_str());
        let mut v: Vec<char> = Vec::new();
        let c = chars_of(cleaned.as_str());
        append_chars(&mut v, &c);
        let p = chars_of(" on ");
        append_chars(&mut v, &p);
        let link = issue_link(title.as_str(), url.as_str());
        append_chars(&mut v, &link);
        proof {
            assert(v@ =~= spec_clean_text(body@) + " on "@ + spec_issue_link(title@, url@));
        }
        Ok(string_of(&v))
    } else if str_eq(action, "ForkEvent") {
        let full_name = match get(&activity.payload, "forkee.full_name") {
            Ok(v) => v,
            Err(e) => {
                return Err(e);
            },
        };
        let url = match get(&activity.payload, "forkee.html_url") {
            Ok(v) => v,
            Err(e) => {
                return Err(e);
            },
        };
        let mut v: Vec<char> = Vec::new();
        let p = chars_of("Forked ");
        append_chars(&mut v, &p);
        let link = repo_link(activity.repo.name.as_str());
        append_chars(&mut v, &link);
        let p = chars_of(" to [@");
        append_chars(&mut v, &p);
        let f = chars_of(full_name.as_str());
        append_chars(&mut v, &f);
        let p = chars_of("](");
        append_chars(&mut v, &p);
        let u = chars_of(url.as_str());
        append_chars(&mut v, &u);
        let p = chars_of(" \"View ");
        append_chars(&mut v, &p);
        let esc = markdown_link_title_escape(full_name.as_str());
        let e = chars_of(esc.as_str());
        append_chars(&mut v, &e);
        let p = chars_of(" on GitHub\")");
        append_chars(&mut v, &p);
        proof {
            assert(v@ =~= "Forked "@ + spec_repo_link(activity.repo.name@) + " to [@"@
                + full_name@ + "]("@ + url@ + " \"View "@ + spec_escape(full_name@)
                + " on GitHub\")"@);
        }
        Ok(string_of(&v))
    } else if str_eq(action, "CreateEvent") {
        let rt = match get(&activity.payload, "ref_type") {
            Ok(v) => v,
            Err(e) => {
                return Err(e);
            },
        };
        if str_eq(rt.as_str(), "repository") {
            let mut v: Vec<char> = Vec::new();
            let p = chars_of("Created ");
            append_chars(&mut v, &p);
            let link = repo_link(activity.repo.name.as_str());
            append_chars(&mut v, &link);
            proof {
                assert(v@ =~= "Created "@ + spec_repo_link(activity.repo.name@));
            }
            Ok(string_of(&v))
        } else {
            GHKeyError::raise("CreateEvent.ref_type")
        }
    } else if str_eq(action, "IssuesEvent") {
        let act = match get(&activity.payload, "action") {
            Ok(v) => v,
            Err(e) => {
                return Err(e);
            },
        };
        if str_eq(act.as_str(), "opened") {
            let title = match get(&activity.payload, "issue.title") {
                Ok(v) => v,
                Err(e) => {
                    return Err(e);
                },
            };
            let repo = match get(&activity.payload, "repository.full_name") {
                Ok(v) => v,
                Err(e) => {
                    return Err(e);
                },
            };
            let url = match get(&activity.payload, "issue.html_url") {
                Ok(v) => v,
                Err(e) => {
                    return Err(e);
                },
            };
            let mut v: Vec<char> = Vec::new();
            let p = chars_of("Opened ");
            append_chars(&mut v, &p);
            let link = issue_link(title.as_str(), url.as_str());
            append_chars(&mut v, &link);
            let p = chars_of(" in ");
            append_chars(&mut v, &p);
            let rl = repo_link(repo.as_str());
            append_chars(&mut v, &rl);
            proof {
                assert(v@ =~= "Opened "@ + spec_issue_link(title@, url@) + " in "@
                    + spec_repo_link(repo@));
            }
            Ok(string_of(&v))
        } else if str_eq(act.as_str(), "closed") {
            let title = match get(&activity.payload, "issue.title") {
                Ok(v) => v,
                Err(e) => {
                    return Err(e);
                },
            };
            let url = match get(&activity.payload, "issue.html_url") {
                Ok(v) => v,
                Err(e) => {
                    return Err(e);
                },
            };
            let mut v: Vec<char> = Vec::new();
            let p = chars_of("Closed ");
            append_chars(&mut v, &p);
            let link = issue_link(title.as_str(), url.as_str());
            append_chars(&mut v, &link);
            let p = chars_of(" in ");
            append_chars(&mut v, &p);
            let rl = repo_link(activity.repo.name.as_str());
            append_chars(&mut v, &rl);
            proof {
                assert(v@ =~= "Closed "@ + spec_issue_link(title@, url@) + " in "@
                    + spec_repo_link(activity.repo.name@));
            }
            Ok(string_of(&v))
        } else {
            GHKeyError::raise("IssuesEvent.action")
        }
    } else if str_eq(action, "PullRequestEvent") {
        let act = match get(&activity.payload, "action") {
            Ok(v) => v,
            Err(e) => {
                return Err(e);
            },
        };
        let opened = str_eq(act.as_str(), "opened");
        if opened || str_eq(act.as_str(), "closed") {
            let full_name = match get(&activity.payload, "pull_request.base.repo.full_name") {
                Ok(v) => v,
                Err(e) => {
                    return Err(e);
                },
            };
            let title = match get(&activity.payload, "pull_request.title") {
                Ok(v) => v,
                Err(e) => {
                    return Err(e);
                },
            };
            let url = match get(&activity.payload, "pull_request.html_url") {
                Ok(v) => v,
                Err(e) => {
                    return Err(e);
                },
            };
            let mut v: Vec<char> = Vec::new();
            let p = if opened {
                chars_of("Opened a pull request in ")
            } else {
                chars_of("Closed a pull request in ")
            };
            append_chars(&mut v, &p);
            let rl = repo_link(full_name.as_str());
            append_chars(&mut v, &rl);
            let p = chars_of(":\n\n[");
            append_chars(&mut v, &p);
            let t = chars_of(title.as_str());
            append_chars(&mut v, &t);
            let p = chars_of("](");
            append_chars(&mut v, &p);
            let u = chars_of(url.as_str());
            append_chars(&mut v, &u);
            let p = chars_of(" \"View this PR on GitHub\")");
            append_chars(&mut v, &p);
            proof {
                assert(v@ =~= (if act@ == "opened"@ {
                    "Opened a pull request in "@
                } else {
                    "Closed a pull request in "@
                }) + spec_repo_link(full_name@) + ":\n\n["@ + title@ + "]("@ + url@
                    + " \"View this PR on GitHub\")"@);
            }
            Ok(string_of(&v))
        } else {
            GHKeyError::raise("PullRequestEvent.action")
        }
    } else if str_eq(action, "PushEvent") {
        let ds_key = chars_of("distinct_size");
        let count: i64 = match get_key(&activity.payload, &ds_key) {
            None => {
                return GHKeyError::raise("PushEvent.distinct_size");
            },
            Some(v) => match v {
                Json::Int(n) => *n,
                _ => {
                    return GHKeyError::raise("PushEvent.distinct_size.parser_error");
                },
            },
        };
        let before = match get(&activity.payload, "before") {
            Ok(v) => v,
            Err(e) => {
                return Err(e);
            },
        };
        let head = match get(&activity.payload, "head") {
            Ok(v) => v,
            Err(e) => {
                return Err(e);
            },
        };
        let mut v: Vec<char> = Vec::new();
        let p = chars_of("Pushed [");
        append_chars(&mut v, &p);
        let num = crate::text::decimal_string(count);
        let d = chars_of(num.as_str());
        append_chars(&mut v, &d);
        let p = chars_of(" commit");
        append_chars(&mut v, &p);
        if count != 1 {
            let p = chars_of("s");
            append_chars(&mut v, &p);
        }
        let p = chars_of("](");
        append_chars(&mut v, &p);
        let p = chars_of("https://github.com/");
        append_chars(&mut v, &p);
        let n = chars_of(activity.repo.name.as_str());
        append_chars(&mut v, &n);
        let p = chars_of("/compare/");
        append_chars(&mut v, &p);
        let b = chars_of(before.as_str());
        append_chars(&mut v, &b);
        let p = chars_of("...");
        append_chars(&mut v, &p);
        let h = chars_of(head.as_str());
        append_chars(&mut v, &h);
        let p = chars_of(" \"View these changes on GitHub\") to ");
        append_chars(&mut v, &p);
        let rl = repo_link(activity.repo.name.as_str());
        append_chars(&mut v, &rl);
        proof {
            assert(v@ =~= "Pushed ["@ + spec_commit_label(count as int) + "]("@ + spec_compare_url(
                activity.repo.name@,
                before@,
                head@,
            ) + " \"View these changes on GitHub\") to "@ + spec_repo_link(activity.repo.name@));
        }
        Ok(string_of(&v))
    } else if str_eq(action, "PublicEvent") {
        let full_name = match get(&activity.payload, "repository.full_name") {
            Ok(v) => v,
            Err(e) => {
                return Err(e);
            },
        };
        let mut v: Vec<char> = Vec::new();
        let p = chars_of("Open sourced ");
        append_chars(&mut v, &p);
        let rl = repo_link(full_name.as_str());
        append_chars(&mut v, &rl);
        proof {
            assert(v@ =~= "Open sourced "@ + spec_repo_link(full_name@));
        }
        Ok(string_of(&v))
    } else if str_eq(action, "ReleaseEvent") {
        let full_name = match get(&activity.payload, "repository.full_name") {
            Ok(v) => v,
            Err(e) => {
                return Err(e);
            },
        };
        let tag = match get(&activity.payload, "release.tag_name") {
            Ok(v) => v,
            Err(e) => {
                return Err(e);
            },
        };
        let url = match get(&activity.payload, "release.html_url") {
            Ok(v) => v,
            Err(e) => {
                return Err(e);
            },
        };
        let mut v: Vec<char> = Vec::new();
        let p = chars_of("Released [@");
        append_chars(&mut v, &p);
        let f = chars_of(full_name.as_str());
        append_chars(&mut v, &f);
        let p = chars_of(" ");
        append_chars(&mut v, &p);
        let t = chars_of(tag.as_str());
        append_chars(&mut v, &t);
        let p = chars_of("](");
        append_chars(&mut v, &p);
        let u = chars_of(url.as_str());
        append_chars(&mut v, &u);
        let p = chars_of(" \"View this release on GitHub\")");
        append_chars(&mut v, &p);
        proof {
            assert(v@ =~= "Released [@"@ + full_name@ + " "@ + tag@ + "]("@ + url@
                + " \"View this release on GitHub\")"@);
        }
        Ok(string_of(&v))
    } else {
        GHKeyError::raise(action)
    }
}

/// The activities of a list of events, in order; an event whose payload is
/// rejected, whose discriminant is unsupported or whose timestamp does not
/// parse is dropped.
pub open spec fn spec_transform_github(list: Seq<GitHubActivity>) -> Seq<ActivityView>
    decreases list.len(),
{
    if list.len() == 0 {
        Seq::<ActivityView>::empty()
    } else {
        let init = spec_transform_github(list.drop_last());
        let a = list.last();
        match spec_patch_github(a) {
            Ok(content) => match crate::time::parse_instant_of(
                a.created_at@,
                "%Y-%m-%dT%H:%M:%SZ"@,
            ) {
                Some(sec) => init.push(
                    ActivityView {
                        activity_type: "github"@,
                        content: content,
                        url: Seq::<char>::empty(),
                        action: "On"@,
                        ts: sec,
                    },
                ),
                None => init,
            },
            Err(_) => init,
        }
    }
}

/// Converts each event into a feed activity; a rejected event is skipped,
/// and one bad event loses no other.
pub fn transform_github(list: &Vec<GitHubActivity>) -> (r: Vec<Activity>)
    ensures
        r@.map_values(|a: Activity| a@) == spec_transform_github(list@),
{
    let mut out: Vec<Activity> = Vec::new();
    let mut i: usize = 0;
    proof {
        assert(list@.take(0) =~= Seq::<GitHubActivity>::empty());
        assert(out@.map_values(|a: Activity| a@) =~= spec_transform_github(list@.take(0)));
    }
    while i < list.len()
        invariant
            i <= list@.len(),
            out@.map_values(|a: Activity| a@) == spec_transform_github(list@.take(i as int)),
        decreases list@.len() - i,
    {
        let ghost out_pre = out@;
        let a = &list[i];
        proof {
            assert(list@.take(i + 1).drop_last() =~= list@.take(i as int));
            assert(list@.take(i + 1).last() == list@[i as int]);
        }
        match patch_text(a) {
            Ok(content) => {
                match crate::time::parse_calendar_timestamp(a.created_at.as_str()) {
                    Some(sec) => {
                        let act = Activity::new(
                            "github",
                            content,
                            DateTime { url: String::new(), action: "On".to_owned(), ts: sec },
                        );
                        proof {
                            assert(act@ =~= spec_transform_github(list@.take(i + 1)).last());
                        }
                        out.push(act);
                        proof {
                            assert(out@.map_values(|x: Activity| x@) =~= out_pre.map_values(
                                |x: Activity| x@,
                            ).push(act@));
                        }
                    },
                    None => {},
                }
            },
            Err(_) => {},
        }
        i = i + 1;
    }
    proof {
        assert(list@.take(list@.len() as int) =~= list@);
    }
    out
}

} // verus!
