use twitch_chat::{
    cap_request, chat_line, handshake_lines, join_line, nick_line, pass_line, pong_line,
    split_lines, Action, Client, ConnectAction, Frame, Msg, Phase, SessionError, Tags,
};

fn joined() -> Client<u32, u32> {
    let mut c: Client<u32, u32> = Client::new("loige".to_string(), "loigebot".to_string());
    let mut a = c.begin_connect("tok");
    loop {
        match a {
            ConnectAction::Send(_) => a = c.handshake_event(true),
            ConnectAction::Connected => break,
            ConnectAction::Failed(e) => panic!("handshake failed: {:?}", e),
        }
    }
    c
}

#[test]
fn outbound_lines() {
    assert_eq!(cap_request(), "CAP REQ :twitch.tv/membership twitch.tv/tags");
    assert_eq!(pass_line("abc"), "PASS oauth:abc");
    assert_eq!(nick_line("loigebot"), "NICK loigebot");
    assert_eq!(join_line("loige"), "JOIN #loige");
    assert_eq!(pong_line("tmi.twitch.tv"), "PONG :tmi.twitch.tv");
    assert_eq!(chat_line("loige", "Hello you"), "PRIVMSG #loige :Hello you!");
    assert_eq!(
        handshake_lines("abc", "bot", "chan"),
        vec![
            "CAP REQ :twitch.tv/membership twitch.tv/tags".to_string(),
            "PASS oauth:abc".to_string(),
            "NICK bot".to_string(),
            "JOIN #chan".to_string(),
        ]
    );
}

#[test]
fn lines_of_a_frame() {
    assert_eq!(split_lines(""), Vec::<String>::new());
    assert_eq!(split_lines("a"), vec!["a".to_string()]);
    assert_eq!(split_lines("a\n"), vec!["a".to_string()]);
    assert_eq!(split_lines("a\r\nb\r\n"), vec!["a".to_string(), "b".to_string()]);
    assert_eq!(split_lines("a\n\nb"), vec!["a".to_string(), String::new(), "b".to_string()]);
    assert_eq!(split_lines("\n"), vec![String::new()]);
    assert_eq!(split_lines("a\r"), vec!["a\r".to_string()]);
}

#[test]
fn handshake_sends_four_lines_in_order() {
    let mut c: Client<u32, u32> = Client::new("loige".to_string(), "loigebot".to_string());
    assert_eq!(c.phase(), Phase::Disconnected);
    let mut sent = Vec::new();
    let mut a = c.begin_connect("tok");
    assert_eq!(c.phase(), Phase::Handshaking);
    while let ConnectAction::Send(line) = a {
        sent.push(line);
        a = c.handshake_event(true);
    }
    assert_eq!(a, ConnectAction::Connected);
    assert_eq!(c.phase(), Phase::Joined);
    assert_eq!(
        sent,
        vec![
            "CAP REQ :twitch.tv/membership twitch.tv/tags".to_string(),
            "PASS oauth:tok".to_string(),
            "NICK loigebot".to_string(),
            "JOIN #loige".to_string(),
        ]
    );
}

#[test]
fn failed_password_send_aborts_the_handshake() {
    let mut c: Client<u32, u32> = Client::new("loige".to_string(), "loigebot".to_string());
    let mut sent = Vec::new();
    let a = c.begin_connect("tok");
    if let ConnectAction::Send(l) = a {
        sent.push(l);
    }
    let a = c.handshake_event(true);
    if let ConnectAction::Send(l) = a {
        sent.push(l);
    }
    let a = c.handshake_event(false);
    assert_eq!(a, ConnectAction::Failed(SessionError::Transport));
    assert_eq!(c.phase(), Phase::Disconnected);
    assert_eq!(
        sent,
        vec![
            "CAP REQ :twitch.tv/membership twitch.tv/tags".to_string(),
            "PASS oauth:tok".to_string(),
        ]
    );
}

#[test]
fn ping_line_gets_one_pong_and_no_dispatch() {
    let mut c = joined();
    let actions = c.handle_frame(Frame::Text("PING :tmi.twitch.tv".to_string()));
    assert_eq!(actions, vec![Action::Send("PONG :tmi.twitch.tv".to_string())]);
    assert_eq!(c.phase(), Phase::Joined);
}

#[test]
fn two_lines_dispatch_in_order() {
    let mut c = joined();
    let actions = c.handle_frame(Frame::Text(
        ":a!a@h PRIVMSG #loige :first\r\n:b!b@h JOIN #loige\r\n".to_string(),
    ));
    assert_eq!(
        actions,
        vec![
            Action::PrivMsg(Msg::PrivMsg {
                nick: "a".to_string(),
                canonical_nick: "a@h".to_string(),
                msg: "first".to_string(),
                channel: "loige".to_string(),
                tags: Tags::new(),
            }),
            Action::Join(Msg::Join {
                nick: "b".to_string(),
                canonical_nick: "b@h".to_string(),
                channel: "loige".to_string(),
            }),
        ]
    );
}

#[test]
fn other_lines_and_frames_ask_for_nothing() {
    let mut c = joined();
    assert!(c.handle_frame(Frame::Text(":tmi 001 bot :Welcome".to_string())).is_empty());
    assert!(c.handle_frame(Frame::Pong(vec![1, 2])).is_empty());
    assert!(c.handle_frame(Frame::Binary(vec![3])).is_empty());
    assert_eq!(c.phase(), Phase::Joined);
}

#[test]
fn part_line_dispatches_to_part_listeners() {
    let mut c = joined();
    let actions = c.handle_frame(Frame::Text(":z!z@h PART #loige".to_string()));
    assert_eq!(
        actions,
        vec![Action::Part(Msg::Part {
            nick: "z".to_string(),
            canonical_nick: "z@h".to_string(),
            channel: "loige".to_string(),
        })]
    );
}

#[test]
fn transport_ping_gets_same_payload() {
    let mut c = joined();
    let actions = c.handle_frame(Frame::Ping(vec![9, 8, 7]));
    assert_eq!(actions, vec![Action::Pong(vec![9, 8, 7])]);
}

#[test]
fn close_and_read_error_end_the_session() {
    let mut c = joined();
    assert_eq!(c.handle_frame(Frame::Close), vec![Action::Close]);
    assert_eq!(c.phase(), Phase::Closing);
    c.finish();
    assert_eq!(c.phase(), Phase::Closed);

    let mut d = joined();
    assert_eq!(d.handle_frame(Frame::ReadError), vec![Action::Close]);
    assert_eq!(d.phase(), Phase::Closing);
}

#[test]
fn listeners_keep_their_order() {
    let mut c: Client<u32, &str> = Client::new("chan".to_string(), "bot".to_string());
    c.add_priv_msg_listener(1);
    c.add_priv_msg_listener(2);
    c.add_join_listener("j");
    c.add_part_listener("p1");
    c.add_part_listener("p2");
    assert_eq!(c.priv_msg_listeners(), &vec![1, 2]);
    assert_eq!(c.join_listeners(), &vec!["j"]);
    assert_eq!(c.part_listeners(), &vec!["p1", "p2"]);
    assert_eq!(c.channel(), "chan");
    assert_eq!(c.nick(), "bot");
}
