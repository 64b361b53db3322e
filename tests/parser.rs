use std::collections::HashMap;

use twitch_chat::{parse_msg, parse_tags, Msg, Tags};

fn tag_map(tags: &Tags) -> HashMap<&str, &str> {
    tags.entries().iter().map(|(k, v)| (k.as_str(), v.as_str())).collect()
}

fn expected_tags() -> HashMap<&'static str, &'static str> {
    [
        ("flags", ""),
        ("mod", "0"),
        (
            "emotes",
            "305954156:19-26/emotesv2_0a2141aad734442b8d59867381606ff2:31-39",
        ),
        ("badge-info", "subscriber/27"),
        ("first-msg", "0"),
        ("returning-chatter", "0"),
        ("tmi-sent-ts", "1695057155940"),
        ("room-id", "442728198"),
        ("color", "#0000FF"),
        ("client-nonce", "0ad2f4543a7c7ebd3814ceca0ce71434"),
        ("display-name", "Loige"),
        ("subscriber", "1"),
        ("turbo", "0"),
        ("user-id", "442728198"),
        ("user-type", ""),
        ("id", "ded9c28a-84d6-4b0b-b22f-1b99ca5085e3"),
        ("badges", "broadcaster/1,subscriber/0"),
    ]
    .into_iter()
    .collect()
}

#[test]
fn test_parse_priv_msg() {
    let msg = ":gambuzzi!gambuzzi@gambuzzi.tmi.twitch.tv PRIVMSG #loige :something";
    let msg = parse_msg(msg);
    assert_eq!(
        msg,
        Msg::PrivMsg {
            nick: "gambuzzi".to_string(),
            canonical_nick: "gambuzzi@gambuzzi.tmi.twitch.tv".to_string(),
            msg: "something".to_string(),
            channel: "loige".to_string(),
            tags: Tags::new(),
        }
    );
}

#[test]
fn test_parse_ping() {
    let msg = "PING :tmi.twitch.tv";
    let msg = parse_msg(msg);
    assert_eq!(
        msg,
        Msg::Ping {
            server_name: "tmi.twitch.tv".to_string(),
        }
    );
}

#[test]
fn test_parse_join() {
    let msg = ":01ella!01ella@01ella.tmi.twitch.tv JOIN #loige";
    let msg = parse_msg(msg);
    assert_eq!(
        msg,
        Msg::Join {
            nick: "01ella".to_string(),
            canonical_nick: "01ella@01ella.tmi.twitch.tv".to_string(),
            channel: "loige".to_string(),
        }
    );
}

#[test]
fn test_parse_part() {
    let msg = ":01ella!01ella@01ella.tmi.twitch.tv PART #loige";
    let msg = parse_msg(msg);
    assert_eq!(
        msg,
        Msg::Part {
            nick: "01ella".to_string(),
            canonical_nick: "01ella@01ella.tmi.twitch.tv".to_string(),
            channel: "loige".to_string(),
        }
    );
}

#[test]
fn test_parse_other() {
    let msg = ":loige.tmi.twitch.tv 353 loige = #loige :loige";
    let msg = parse_msg(msg);
    assert_eq!(
        msg,
        Msg::Other {
            msg: ":loige.tmi.twitch.tv 353 loige = #loige :loige".to_string()
        }
    );
}

#[test]
fn test_parse_priv_msg_with_tags() {
    let msg = "@badge-info=subscriber/27;badges=broadcaster/1,subscriber/0;client-nonce=0ad2f4543a7c7ebd3814ceca0ce71434;color=#0000FF;display-name=Loige;emotes=305954156:19-26/emotesv2_0a2141aad734442b8d59867381606ff2:31-39;first-msg=0;flags=;id=ded9c28a-84d6-4b0b-b22f-1b99ca5085e3;mod=0;returning-chatter=0;room-id=442728198;subscriber=1;tmi-sent-ts=1695057155940;turbo=0;user-id=442728198;user-type= :loige!loige@loige.tmi.twitch.tv PRIVMSG #loige :hello, do you like PogChamp or loigeCrab ?";
    let msg = parse_msg(msg);
    match msg {
        Msg::PrivMsg { nick, canonical_nick, msg, channel, tags } => {
            assert_eq!(nick, "loige");
            assert_eq!(canonical_nick, "loige@loige.tmi.twitch.tv");
            assert_eq!(msg, "hello, do you like PogChamp or loigeCrab ?");
            assert_eq!(channel, "loige");
            assert_eq!(tag_map(&tags), expected_tags());
            assert_eq!(tags.len(), 17);
        }
        other => panic!("expected a chat message, got {:?}", other),
    }
}

#[test]
fn test_parse_tags() {
    let msg = "@badge-info=subscriber/27;badges=broadcaster/1,subscriber/0;client-nonce=0ad2f4543a7c7ebd3814ceca0ce71434;color=#0000FF;display-name=Loige;emotes=305954156:19-26/emotesv2_0a2141aad734442b8d59867381606ff2:31-39;first-msg=0;flags=;id=ded9c28a-84d6-4b0b-b22f-1b99ca5085e3;mod=0;returning-chatter=0;room-id=442728198;subscriber=1;tmi-sent-ts=1695057155940;turbo=0;user-id=442728198;user-type= ";
    let hash_map = parse_tags(msg).unwrap();
    assert_eq!(tag_map(&hash_map), expected_tags());
}

#[test]
fn parse_is_repeatable() {
    let line = "@a=1 :n!n@h PRIVMSG #c :x: #y";
    assert_eq!(parse_msg(line), parse_msg(line));
    match parse_msg(line) {
        Msg::PrivMsg { msg, channel, .. } => {
            assert_eq!(msg, "x: #y");
            assert_eq!(channel, "c");
        }
        other => panic!("expected a chat message, got {:?}", other),
    }
}

#[test]
fn empty_line_is_other() {
    assert_eq!(parse_msg(""), Msg::Other { msg: String::new() });
}

#[test]
fn unmatched_lines_are_other() {
    for line in [
        "PING tmi.twitch.tv",
        ":nick!canon PRIVMSG #chan no separator",
        ":nick-without-bang JOIN #x",
        "@a=1;b :n!n@h PRIVMSG #c :x",
        "@a=1 no origin",
        ":n!n@h NOTICE #c :x",
    ] {
        assert_eq!(parse_msg(line), Msg::Other { msg: line.to_string() });
    }
}

#[test]
fn duplicate_tags_keep_the_later_value() {
    let tags = parse_tags("@k=first;other=;k=second ").unwrap();
    assert_eq!(tags.get("k"), Some(&"second".to_string()));
    assert_eq!(tags.get("other"), Some(&String::new()));
    assert_eq!(tags.get("missing"), None);
    assert_eq!(tags.len(), 2);
}

#[test]
fn tag_value_may_hold_equals() {
    let tags = parse_tags("@k=a=b x").unwrap();
    assert_eq!(tags.get("k"), Some(&"a=b".to_string()));
}

#[test]
fn tag_block_needs_a_space() {
    assert!(parse_tags("@k=v").is_none());
    assert!(parse_tags("k=v ").is_none());
    assert!(parse_tags("@k ").is_none());
}

#[test]
fn ping_with_empty_server_name() {
    assert_eq!(parse_msg("PING :"), Msg::Ping { server_name: String::new() });
}

#[test]
fn join_with_empty_channel() {
    assert_eq!(
        parse_msg(":a!b JOIN #"),
        Msg::Join { nick: "a".to_string(), canonical_nick: "b".to_string(), channel: String::new() }
    );
}

#[test]
fn non_ascii_fields_are_kept() {
    match parse_msg(":zoë!zoë@h PRIVMSG #chän :héllo ☃") {
        Msg::PrivMsg { nick, channel, msg, .. } => {
            assert_eq!(nick, "zoë");
            assert_eq!(channel, "chän");
            assert_eq!(msg, "héllo ☃");
        }
        other => panic!("expected a chat message, got {:?}", other),
    }
}
