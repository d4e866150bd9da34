use mamkilover::address::{Url, UrlView};
use mamkilover::entity::{MessageEntity, MessageEntityKind};
use mamkilover::formatter::chain::apply_rules;
use mamkilover::formatter::defaults::{default_rules, FormattingRule};
use mamkilover::formatter::rule::without_excluded;
use mamkilover::formatter::walk::{
    can_visit_all, for_each_url_mut, marked_text, move_offset, put_in_text, shift_entities,
    Rewrite, UrlRewrite, UrlRewriter,
};
use mamkilover::formatter::{Effect, Rule, UrlHostReplaceRule, UrlQueryExcludeRule};
use mamkilover::keys::KeySet;
use mamkilover::pattern::{InvalidPattern, Regex};
use mamkilover::text::{decode_utf16_lossy, encode_utf16};

fn regex(pattern: &str) -> Regex {
    Regex::new(pattern).ok().unwrap()
}

fn url(text: &str) -> Url {
    Url::parse(text).ok().unwrap()
}

fn names(list: &[&str]) -> KeySet {
    let mut set = KeySet::new();
    for name in list {
        set.insert(name);
    }
    set
}

fn host_rule() -> UrlHostReplaceRule {
    UrlHostReplaceRule {
        host_regex: regex("^(?:www\\.)?x\\.com$"),
        replace: "i.fixupx.com".to_string(),
    }
}

fn query_rule() -> UrlQueryExcludeRule {
    UrlQueryExcludeRule {
        host_regex: regex("^(?:www\\.)?x\\.com$"),
        exclude: names(&["s", "t"]),
    }
}

fn entity(kind: MessageEntityKind, offset: usize, length: usize) -> MessageEntity {
    MessageEntity { kind, offset, length }
}

/// Marks the first occurrence of a part.
fn mark(text: &str, part: &str, kind: MessageEntityKind) -> MessageEntity {
    let start = text.find(part).unwrap();
    entity(kind, text[..start].encode_utf16().count(), part.encode_utf16().count())
}

fn marked(text: &Vec<u16>, entity: &MessageEntity) -> String {
    marked_text(text, entity).unwrap()
}

fn link(entity: &MessageEntity) -> String {
    match &entity.kind {
        MessageEntityKind::TextLink { url } => url.as_str().to_string(),
        _ => panic!("no link"),
    }
}

fn replaced(rewrite: UrlRewrite) -> Option<String> {
    match rewrite {
        UrlRewrite::Replace(url) => Some(url.as_str().to_string()),
        _ => None,
    }
}

#[test]
fn host_is_replaced_in_the_text() {
    let text = "😀 see https://x.com/a?s=1 now";
    let mut units = encode_utf16(text);
    let mut entities = vec![mark(text, "https://x.com/a?s=1", MessageEntityKind::Url)];
    let effect = host_rule().apply(&mut units, &mut entities);
    assert_eq!(effect, Effect::Mutated);
    assert_eq!(decode_utf16_lossy(&units), "😀 see https://i.fixupx.com/a?s=1 now");
    assert_eq!(marked(&units, &entities[0]), "https://i.fixupx.com/a?s=1");
    assert_eq!(entities[0].offset, 7);
    assert_eq!(entities[0].length, 26);
}

#[test]
fn scheme_is_added_to_a_rewritten_url() {
    let text = "x.com/a";
    let mut units = encode_utf16(text);
    let mut entities = vec![entity(MessageEntityKind::Url, 0, 7)];
    assert_eq!(host_rule().apply(&mut units, &mut entities), Effect::Mutated);
    assert_eq!(decode_utf16_lossy(&units), "https://i.fixupx.com/a");
    assert_eq!(entities[0].length, 22);
}

#[test]
fn later_entities_move_with_the_text() {
    let text = "bold x.com/1 mid x.com/2 end 😀";
    let mut units = encode_utf16(text);
    let mut entities = vec![
        mark(text, "bold", MessageEntityKind::Bold),
        mark(text, "x.com/1", MessageEntityKind::Url),
        mark(text, "mid", MessageEntityKind::Italic),
        mark(text, "x.com/2", MessageEntityKind::Url),
        mark(text, "end", MessageEntityKind::Code),
        mark(text, "😀", MessageEntityKind::Spoiler),
    ];
    assert_eq!(host_rule().apply(&mut units, &mut entities), Effect::Mutated);
    assert_eq!(
        decode_utf16_lossy(&units),
        "bold https://i.fixupx.com/1 mid https://i.fixupx.com/2 end 😀"
    );
    let marks: Vec<String> = entities.iter().map(|entity| marked(&units, entity)).collect();
    assert_eq!(
        marks,
        vec![
            "bold",
            "https://i.fixupx.com/1",
            "mid",
            "https://i.fixupx.com/2",
            "end",
            "😀",
        ]
    );
    assert!(matches!(entities[0].kind, MessageEntityKind::Bold));
    assert!(matches!(entities[4].kind, MessageEntityKind::Code));
}

#[test]
fn shorter_urls_pull_the_text_back() {
    let text = "https://x.com/a?s=1&t=2 and x.com/b?s=3&u=4 end";
    let mut units = encode_utf16(text);
    let mut entities = vec![
        mark(text, "https://x.com/a?s=1&t=2", MessageEntityKind::Url),
        mark(text, "x.com/b?s=3&u=4", MessageEntityKind::Url),
        mark(text, "end", MessageEntityKind::Bold),
    ];
    assert_eq!(query_rule().apply(&mut units, &mut entities), Effect::Mutated);
    assert_eq!(decode_utf16_lossy(&units), "https://x.com/a and https://x.com/b?u=4 end");
    assert_eq!(marked(&units, &entities[1]), "https://x.com/b?u=4");
    assert_eq!(marked(&units, &entities[2]), "end");
}

#[test]
fn url_inside_a_bold_text_keeps_in_step() {
    let text = "see x.com/1 now, end";
    let mut units = encode_utf16(text);
    let mut entities = vec![
        mark(text, "see x.com/1 now", MessageEntityKind::Bold),
        mark(text, "x.com/1", MessageEntityKind::Url),
        mark(text, "end", MessageEntityKind::Code),
    ];
    assert_eq!(host_rule().apply(&mut units, &mut entities), Effect::Mutated);
    assert_eq!(marked(&units, &entities[1]), "https://i.fixupx.com/1");
    assert_eq!(marked(&units, &entities[2]), "end");
    assert_eq!((entities[0].offset, entities[0].length), (0, 15));
}

#[test]
fn links_are_rewritten_in_the_entity() {
    let text = "here and there";
    let mut units = encode_utf16(text);
    let mut entities = vec![
        mark(text, "here", MessageEntityKind::TextLink { url: url("https://www.x.com/a?s=1&b=2") }),
        mark(text, "there", MessageEntityKind::TextLink { url: url("https://y.com/?s=1") }),
    ];
    assert_eq!(query_rule().apply(&mut units, &mut entities), Effect::Mutated);
    assert_eq!(decode_utf16_lossy(&units), text);
    assert_eq!(link(&entities[0]), "https://www.x.com/a?b=2");
    assert_eq!(link(&entities[1]), "https://y.com/?s=1");
    assert_eq!(host_rule().apply(&mut units, &mut entities), Effect::Mutated);
    assert_eq!(link(&entities[0]), "https://i.fixupx.com/a?b=2");
    assert_eq!((entities[1].offset, entities[1].length), (9, 5));
}

#[test]
fn other_hosts_are_skipped() {
    let text = "y.com/a?s=1 x.com.example/?s=1";
    let mut units = encode_utf16(text);
    let mut entities = vec![
        mark(text, "y.com/a?s=1", MessageEntityKind::Url),
        mark(text, "x.com.example/?s=1", MessageEntityKind::Url),
        entity(MessageEntityKind::Bold, 0, 5),
    ];
    assert_eq!(host_rule().apply(&mut units, &mut entities), Effect::Skipped);
    assert_eq!(query_rule().apply(&mut units, &mut entities), Effect::Skipped);
    assert_eq!(decode_utf16_lossy(&units), text);
    assert_eq!((entities[0].offset, entities[0].length), (0, 11));
    assert_eq!((entities[2].offset, entities[2].length), (0, 5));
}

#[test]
fn texts_that_are_no_urls_are_skipped() {
    let text = "https:// x.com";
    let mut units = encode_utf16(text);
    let mut entities = vec![
        entity(MessageEntityKind::Url, 0, 8),
        entity(MessageEntityKind::Url, 9, 5),
    ];
    assert_eq!(host_rule().apply(&mut units, &mut entities), Effect::Mutated);
    assert_eq!(decode_utf16_lossy(&units), "https:// https://i.fixupx.com/");
}

#[test]
fn empty_marks_hold_no_url() {
    let mut units = encode_utf16("x.com");
    let mut entities = vec![entity(MessageEntityKind::Url, 5, 0)];
    assert_eq!(host_rule().apply(&mut units, &mut entities), Effect::Skipped);
    assert_eq!(decode_utf16_lossy(&units), "x.com");
}

#[test]
fn plain_text_is_not_searched_for_urls() {
    let mut units = encode_utf16("x.com/a?s=1");
    let mut entities = vec![entity(MessageEntityKind::Bold, 0, 11)];
    assert_eq!(host_rule().apply(&mut units, &mut entities), Effect::Skipped);
    let mut entities = Vec::new();
    assert_eq!(host_rule().apply(&mut units, &mut entities), Effect::Skipped);
    assert_eq!(decode_utf16_lossy(&units), "x.com/a?s=1");
}

#[test]
fn refused_hosts_are_skipped() {
    let rule = UrlHostReplaceRule {
        host_regex: regex("^x\\.com$"),
        replace: "not a host".to_string(),
    };
    let mut units = encode_utf16("x.com");
    let mut entities = vec![entity(MessageEntityKind::Url, 0, 5)];
    assert_eq!(rule.apply(&mut units, &mut entities), Effect::Skipped);
    assert_eq!(decode_utf16_lossy(&units), "x.com");
}

#[test]
fn urls_without_a_host_are_skipped() {
    let everything = UrlHostReplaceRule { host_regex: regex(""), replace: "a.com".to_string() };
    assert!(matches!(everything.rewrite_url(&url("mailto:a@x.com")), UrlRewrite::Keep));
    let nothing = UrlQueryExcludeRule { host_regex: regex(""), exclude: names(&["s"]) };
    assert!(matches!(nothing.rewrite_url(&url("mailto:a@x.com?s=1")), UrlRewrite::Keep));
    assert_eq!(nothing.filter_or_none(&url("mailto:a@x.com?s=1")), None);
}

#[test]
fn replaced_host_does_not_depend_on_the_url() {
    let rule = UrlHostReplaceRule { host_regex: regex(""), replace: "A.com".to_string() };
    for text in ["https://x.com/a?b=c", "http://u@y.org:81/?b=c", "https://1.2.3.4/#b"] {
        let new = replaced(rule.rewrite_url(&url(text))).unwrap();
        assert_eq!(url(&new).host_str(), Some("a.com".to_string()));
        assert_eq!(url(&new).query_pairs(), url(text).query_pairs());
        assert_eq!(url(&new).as_str(), new);
    }
}

#[test]
fn excluded_parameters_are_dropped_in_order() {
    let rule = query_rule();
    assert_eq!(
        rule.filter_or_none(&url("https://x.com/?a=1&s=2&b=3&t=4&a=5&s=6")),
        Some("a=1&b=3&a=5".to_string())
    );
    assert_eq!(rule.filter_or_none(&url("https://x.com/?s=2")), Some(String::new()));
    assert_eq!(rule.filter_or_none(&url("https://x.com/?a=1")), None);
    assert_eq!(rule.filter_or_none(&url("https://x.com/")), None);
    assert_eq!(rule.filter_or_none(&url("https://y.com/?s=2")), None);
    assert_eq!(rule.filter_or_none(&url("https://x.com/?S=2")), None);
}

#[test]
fn kept_parameters_are_encoded_anew() {
    assert_eq!(
        replaced(query_rule().rewrite_url(&url("https://x.com/p?a=~%20b&s=1&c#f"))),
        Some("https://x.com/p?a=%7E+b&c=#f".to_string())
    );
}

#[test]
fn query_disappears_with_its_last_parameter() {
    assert_eq!(
        replaced(query_rule().rewrite_url(&url("https://x.com/p?s=1&t=2#f"))),
        Some("https://x.com/p#f".to_string())
    );
}

#[test]
fn nothing_is_left_to_exclude() {
    let rule = query_rule();
    for text in ["https://x.com/?s=1", "https://x.com/?a=1&s=2&%73=3", "https://x.com/?s&t&&=u"] {
        let new = replaced(rule.rewrite_url(&url(text))).unwrap();
        assert!(matches!(rule.rewrite_url(&url(&new)), UrlRewrite::Keep));
        assert_eq!(url(&new).host_str(), Some("x.com".to_string()));
        assert_eq!(url(&new).as_str(), new);
    }
}

#[test]
fn pairs_are_filtered() {
    let pairs = vec![
        ("a".to_string(), "1".to_string()),
        ("s".to_string(), "2".to_string()),
        ("a".to_string(), "3".to_string()),
    ];
    assert_eq!(
        without_excluded(pairs.clone(), &names(&["s"])),
        Some(vec![
            ("a".to_string(), "1".to_string()),
            ("a".to_string(), "3".to_string()),
        ])
    );
    assert_eq!(without_excluded(pairs.clone(), &names(&["a", "s"])), Some(Vec::new()));
    assert_eq!(without_excluded(pairs, &names(&["b"])), None);
    assert_eq!(without_excluded(Vec::new(), &names(&["b"])), None);
}

#[test]
fn long_urls_are_rewritten() {
    let long = url(&format!("https://x.com/?s=1&u={}", "a".repeat(0x200_0000)));
    assert!(matches!(query_rule().rewrite_url(&long), UrlRewrite::Replace(_)));
    assert!(matches!(host_rule().rewrite_url(&long), UrlRewrite::Replace(_)));
}

#[test]
fn long_hosts_are_put_into_urls() {
    let rule = UrlHostReplaceRule { host_regex: regex(""), replace: "a".repeat(0x10_0000) };
    let new = replaced(rule.rewrite_url(&url("https://x.com/"))).unwrap();
    assert_eq!(new.len(), 0x10_0000 + 9);
}

struct Refuses;

impl UrlRewriter for Refuses {
    fn rewrite(&self, _: UrlView) -> Rewrite {
        Rewrite::TooLong
    }

    fn rewrite_url(&self, _: &Url) -> UrlRewrite {
        UrlRewrite::TooLong
    }
}

#[test]
fn urls_that_are_too_long_are_not_visited() {
    let units = encode_utf16("x.com https://");
    assert!(!can_visit_all(&units, &vec![entity(MessageEntityKind::Url, 0, 5)], &Refuses));
    assert!(can_visit_all(&units, &vec![entity(MessageEntityKind::Url, 6, 8)], &Refuses));
    assert!(can_visit_all(&units, &vec![entity(MessageEntityKind::Bold, 0, 5)], &Refuses));
}

#[test]
fn patterns() {
    assert!(matches!(Regex::new("("), Err(InvalidPattern)));
    let copied = regex("^a+$").copy();
    assert!(copied.is_match("aa"));
    assert!(!copied.is_match("ab"));
    assert!(!regex("^a+$").is_match("^a+$"));
}

#[test]
fn same_host_is_skipped() {
    let rule = UrlHostReplaceRule {
        host_regex: regex("^x\\.com$"),
        replace: "x.com".to_string(),
    };
    let mut units = encode_utf16("https://x.com/");
    let mut entities = vec![entity(MessageEntityKind::Url, 0, 14)];
    assert_eq!(rule.apply(&mut units, &mut entities), Effect::Skipped);
    assert_eq!(decode_utf16_lossy(&units), "https://x.com/");
    let mut units = encode_utf16("x.com");
    let mut entities = vec![entity(MessageEntityKind::Url, 0, 5)];
    assert_eq!(rule.apply(&mut units, &mut entities), Effect::Skipped);
    assert_eq!(decode_utf16_lossy(&units), "x.com");
}

#[test]
fn mark_over_a_shortened_url_stays_at_its_start() {
    let mut units = encode_utf16("https://x.com/a?s=1");
    let mut entities = vec![
        entity(MessageEntityKind::Url, 0, 19),
        entity(MessageEntityKind::Bold, 0, 19),
    ];
    assert_eq!(query_rule().apply(&mut units, &mut entities), Effect::Mutated);
    assert_eq!(decode_utf16_lossy(&units), "https://x.com/a");
    assert_eq!((entities[0].offset, entities[0].length), (0, 15));
    assert_eq!(entities[1].offset, 0);
}

#[test]
fn mark_before_a_url_and_after_it_in_the_list_stays() {
    let text = "bold x.com/a";
    let mut units = encode_utf16(text);
    let mut entities = vec![
        mark(text, "x.com/a", MessageEntityKind::Url),
        mark(text, "bold", MessageEntityKind::Bold),
    ];
    assert_eq!(host_rule().apply(&mut units, &mut entities), Effect::Mutated);
    assert_eq!(marked(&units, &entities[0]), "https://i.fixupx.com/a");
    assert_eq!(marked(&units, &entities[1]), "bold");
}

#[test]
fn second_application_skips() {
    let text = "x.com/a?s=1 and https://x.com/b?t=2&u=3";
    let mut units = encode_utf16(text);
    let mut entities = vec![
        mark(text, "x.com/a?s=1", MessageEntityKind::Url),
        mark(text, "https://x.com/b?t=2&u=3", MessageEntityKind::Url),
    ];
    assert_eq!(query_rule().apply(&mut units, &mut entities), Effect::Mutated);
    let once = decode_utf16_lossy(&units);
    assert_eq!(query_rule().apply(&mut units, &mut entities), Effect::Skipped);
    assert_eq!(decode_utf16_lossy(&units), once);
    assert_eq!(host_rule().apply(&mut units, &mut entities), Effect::Mutated);
    assert_eq!(host_rule().apply(&mut units, &mut entities), Effect::Skipped);
    assert_eq!(
        decode_utf16_lossy(&units),
        "https://i.fixupx.com/a and https://i.fixupx.com/b?u=3"
    );
}

#[test]
fn second_application_skips_whatever_the_scheme() {
    for scheme in ["ftp", "ws", "wss", "http", "https", "foo", "git+ssh"] {
        let text = format!("{}://u@x.com:99/a?s=1&b=2#c", scheme);
        let mut units = encode_utf16(&text);
        let mut entities = vec![entity(MessageEntityKind::Url, 0, units.len())];
        assert_eq!(query_rule().apply(&mut units, &mut entities), Effect::Mutated);
        assert_eq!(query_rule().apply(&mut units, &mut entities), Effect::Skipped);
        assert_eq!(host_rule().apply(&mut units, &mut entities), Effect::Mutated);
        assert_eq!(host_rule().apply(&mut units, &mut entities), Effect::Skipped);
        assert_eq!(
            decode_utf16_lossy(&units),
            format!("{}://u@i.fixupx.com:99/a?b=2#c", scheme)
        );
    }
}

#[test]
fn plain_domain_is_the_host_of_every_replaced_url() {
    for text in ["https://x.com/a", "ht\ttp://u:p@x.com:81", "foo://x.com?s", "WSS://X.com/#f"] {
        let mut units = encode_utf16(text);
        let mut entities = vec![
            entity(MessageEntityKind::Url, 0, units.len()),
            entity(MessageEntityKind::TextLink { url: url(text) }, 0, 1),
        ];
        assert_eq!(host_rule().apply(&mut units, &mut entities), Effect::Mutated);
        let host = Some("i.fixupx.com".to_string());
        assert_eq!(url(&marked(&units, &entities[0])).host_str(), host);
        assert_eq!(url(&link(&entities[1])).host_str(), host);
    }
}

#[test]
fn text_grows_by_as_much_as_its_entities() {
    let text = "A x.com/1 B x.com/2?s=3 C";
    let mut units = encode_utf16(text);
    let mut entities = vec![
        mark(text, "A", MessageEntityKind::Bold),
        mark(text, "x.com/1", MessageEntityKind::Url),
        mark(text, "B", MessageEntityKind::Italic),
        mark(text, "x.com/2?s=3", MessageEntityKind::Url),
        mark(text, "C", MessageEntityKind::Code),
    ];
    let size = |entities: &Vec<MessageEntity>| -> usize {
        entities.iter().map(|entity| entity.length).sum()
    };
    for rule in default_rules().ok().unwrap() {
        let before = (units.len(), size(&entities));
        rule.apply(&mut units, &mut entities);
        assert_eq!(units.len() + before.1, before.0 + size(&entities));
        for pair in entities.windows(2) {
            assert!(pair[0].offset + pair[0].length <= pair[1].offset);
        }
        assert!(entities[4].offset + entities[4].length <= units.len());
    }
    assert!(matches!(entities[0].kind, MessageEntityKind::Bold));
    assert!(matches!(entities[4].kind, MessageEntityKind::Code));
    assert_eq!(decode_utf16_lossy(&units), "A https://i.fixupx.com/1 B https://i.fixupx.com/2 C");
}

#[test]
fn exclusions_compose() {
    let text = "x.com/?s=1&t=2&u=3 x.com/?t=4 x.com/?u=5 end";
    let rule = |list: &[&str]| UrlQueryExcludeRule {
        host_regex: regex("^x\\.com$"),
        exclude: names(list),
    };
    let marks = || {
        vec![
            mark(text, "x.com/?s=1&t=2&u=3", MessageEntityKind::Url),
            mark(text, "x.com/?t=4", MessageEntityKind::Url),
            mark(text, "x.com/?u=5", MessageEntityKind::Url),
            mark(text, "end", MessageEntityKind::Bold),
        ]
    };
    let places = |entities: &Vec<MessageEntity>| -> Vec<(usize, usize)> {
        entities.iter().map(|entity| (entity.offset, entity.length)).collect()
    };
    let mut units = encode_utf16(text);
    let mut entities = marks();
    rule(&["s"]).apply(&mut units, &mut entities);
    rule(&["t"]).apply(&mut units, &mut entities);
    let mut whole = encode_utf16(text);
    let mut whole_entities = marks();
    rule(&["s", "t"]).apply(&mut whole, &mut whole_entities);
    assert_eq!(units, whole);
    assert_eq!(places(&entities), places(&whole_entities));
    assert_eq!(decode_utf16_lossy(&whole), "https://x.com/?u=3 https://x.com/ x.com/?u=5 end");
}

#[test]
fn entities_beyond_the_text_are_refused() {
    let mut units = encode_utf16("x.com");
    let mut entities = vec![
        entity(MessageEntityKind::Url, 0, 5),
        entity(MessageEntityKind::Url, 3, 3),
    ];
    assert!(!can_visit_all(&units, &entities, &host_rule()));
    assert_eq!(host_rule().try_apply(&mut units, &mut entities), None);
    assert_eq!(decode_utf16_lossy(&units), "x.com");
    assert_eq!((entities[0].offset, entities[0].length), (0, 5));
    let mut entities = vec![entity(MessageEntityKind::Url, usize::MAX, 2)];
    assert_eq!(query_rule().try_apply(&mut units, &mut entities), None);
    let mut entities = vec![entity(MessageEntityKind::Bold, usize::MAX, 2)];
    assert_eq!(query_rule().try_apply(&mut units, &mut entities), Some(Effect::Skipped));
}

#[test]
fn visitable_messages_are_rewritten() {
    let mut units = encode_utf16("x.com");
    let mut entities = vec![entity(MessageEntityKind::Url, 0, 5)];
    assert!(can_visit_all(&units, &entities, &host_rule()));
    assert_eq!(for_each_url_mut(&mut units, &mut entities, &host_rule()), Effect::Mutated);
    assert_eq!(decode_utf16_lossy(&units), "https://i.fixupx.com/");
    assert_eq!(host_rule().try_apply(&mut units, &mut entities), Some(Effect::Skipped));
}

#[test]
fn offsets_move_with_the_text() {
    assert_eq!(move_offset(3, 5, 10, 2), 3);
    assert_eq!(move_offset(5, 5, 10, 2), 5);
    assert_eq!(move_offset(10, 5, 10, 2), 7);
    assert_eq!(move_offset(12, 5, 10, 8), 15);
    assert_eq!(move_offset(9, 5, 10, 2), 6);
    assert_eq!(move_offset(6, 5, 10, 2), 5);
    assert_eq!(move_offset(usize::MAX, 5, 10, 8), usize::MAX);
}

#[test]
fn urls_are_put_into_the_text() {
    let mut units = encode_utf16("a b c");
    let mut entities = vec![
        entity(MessageEntityKind::Bold, 4, 1),
        entity(MessageEntityKind::Url, 2, 1),
        entity(MessageEntityKind::Code, 4, 1),
    ];
    put_in_text(&mut units, &mut entities, 1, &url("https://x.com"));
    assert_eq!(decode_utf16_lossy(&units), "a https://x.com/ c");
    assert_eq!((entities[0].offset, entities[0].length), (4, 1));
    assert_eq!((entities[1].offset, entities[1].length), (2, 14));
    assert_eq!(marked(&units, &entities[2]), "c");
    shift_entities(&mut entities, 1, 1);
    assert_eq!((entities[1].offset, entities[1].length), (2, 1));
    assert_eq!(entities[2].offset, 4);
}

#[test]
fn marked_texts() {
    let units = encode_utf16("a😀b");
    assert_eq!(marked_text(&units, &entity(MessageEntityKind::Bold, 1, 2)), Some("😀".to_string()));
    assert_eq!(marked_text(&units, &entity(MessageEntityKind::Bold, 4, 0)), Some(String::new()));
    assert_eq!(marked_text(&units, &entity(MessageEntityKind::Bold, 4, 1)), None);
    assert_eq!(marked_text(&units, &entity(MessageEntityKind::Bold, 1, usize::MAX)), None);
    assert_eq!(
        marked_text(&units, &entity(MessageEntityKind::Bold, 1, 1)),
        Some("\u{FFFD}".to_string())
    );
}

fn formatted(text: &str) -> (Effect, String) {
    let rules = default_rules().ok().unwrap();
    let mut units = encode_utf16(text);
    let mut entities = vec![entity(MessageEntityKind::Url, 0, units.len())];
    let effect = apply_rules(&rules, &mut units, &mut entities).unwrap();
    assert_eq!(entities.len(), 1);
    assert_eq!(entities[0].offset, 0);
    assert_eq!(entities[0].length, units.len());
    (effect, decode_utf16_lossy(&units))
}

#[test]
fn known_sites_are_rewritten() {
    let cases = [
        ("https://x.com/a/status/1?s=20&t=abc", "https://i.fixupx.com/a/status/1"),
        ("https://www.twitter.com/a?lang=en&s=1", "https://i.fixupx.com/a?lang=en"),
        ("twitter.com/a", "https://i.fixupx.com/a"),
        ("https://vm.tiktok.com/ZM/", "https://fixtiktok.com/ZM/"),
        ("https://www.tiktok.com/@a/video/1?s=2", "https://fixtiktok.com/@a/video/1?s=2"),
        ("https://youtu.be/id?si=x&t=10", "https://youtu.be/id?t=10"),
        ("https://www.youtube.com/watch?v=id&pp=y", "https://www.youtube.com/watch?v=id"),
        ("https://www.instagram.com/reel/1/?igsh=z", "https://www.instagram.com/reel/1/"),
    ];
    for (before, after) in cases {
        assert_eq!(formatted(before), (Effect::Mutated, after.to_string()));
    }
}

#[test]
fn other_sites_stay() {
    for text in [
        "https://example.com/?s=1&si=2&igsh=3",
        "https://youtu.be/id?t=10",
        "https://www.youtube.com/watch?v=id&igsh=y",
        "https://instagram.com/reel/1/?si=z",
        "https://mobile.twitter.com/a?s=1",
        "https://m.tiktok.com/x",
        "https://i.fixupx.com/a?s=1",
    ] {
        assert_eq!(formatted(text), (Effect::Skipped, text.to_string()));
    }
}

#[test]
fn known_rules_come_in_their_order() {
    let rules = default_rules().ok().unwrap();
    assert_eq!(rules.len(), 5);
    let sorts: Vec<bool> =
        rules.iter().map(|rule| matches!(rule, FormattingRule::HostReplace(_))).collect();
    assert_eq!(sorts, vec![false, true, true, false, false]);
}

#[test]
fn rules_work_on_what_the_ones_before_left() {
    let text = "x.com/?s=1 youtu.be/a?si=1 end";
    let rules = default_rules().ok().unwrap();
    let mut units = encode_utf16(text);
    let mut entities = vec![
        mark(text, "x.com/?s=1", MessageEntityKind::Url),
        mark(text, "youtu.be/a?si=1", MessageEntityKind::Url),
        mark(text, "end", MessageEntityKind::Bold),
    ];
    assert_eq!(apply_rules(&rules, &mut units, &mut entities), Some(Effect::Mutated));
    assert_eq!(decode_utf16_lossy(&units), "https://i.fixupx.com/ https://youtu.be/a end");
    assert_eq!(marked(&units, &entities[2]), "end");
    let mut broken = vec![entity(MessageEntityKind::Url, 1000, 1)];
    assert_eq!(apply_rules(&rules, &mut units, &mut broken), None);
}
