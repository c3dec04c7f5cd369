use cupcake::data::ChatMessage;
use cupcake::data::ChatMeta;
use cupcake::data::DecodeError;
use cupcake::data::Login;
use cupcake::data::MessageContainer;
use cupcake::data::RawChatPayload;
use cupcake::data::RawLoginPayload;
use cupcake::data::SocketConfig;
use cupcake::data::SocketConfigServer;
use cupcake::markup::Team;
use cupcake::strutil::trim_str;
use cupcake::strutil::u64_to_string;

fn raw_chat(time: u64, username: &str, msg: &str, add_class: Option<&str>) -> RawChatPayload {
    RawChatPayload {
        time: Some(time),
        username: Some(username.to_string()),
        msg: Some(msg.to_string()),
        meta: Some(ChatMeta {
            add_class: add_class.map(|c| c.to_string()),
        }),
    }
}

#[test]
fn chat_message_deserialize_image() {
    let timestamp: u64 = 1760633254810;
    let msg = "<a href=\"https://example.com/image.jpg?ex=1234&amp;is=5678\" target=\"_blank\">\
        <img src=\"https://example.com/image.jpg?ex=1234&amp;is=5678\" /></a>";
    let chat = ChatMessage::decode(&raw_chat(timestamp, "ChetBaker", msg, None)).unwrap();
    assert_eq!(
        chat,
        ChatMessage {
            time: timestamp,
            username: "ChetBaker".into(),
            msg: MessageContainer {
                text: msg.into(),
                team: Team::Empty,
            },
            meta: ChatMeta { add_class: None },
        }
    )
}

#[test]
fn chat_message_deserialize_greentext() {
    let timestamp: u64 = 1760634672025;
    let msg = "&gt;XD <span style=\"display:none\" class=\"teamColorSpan\">-teamwg-</span>";
    let chat =
        ChatMessage::decode(&raw_chat(timestamp, "PotF", msg, Some("greentext"))).unwrap();
    assert_eq!(
        chat,
        ChatMessage {
            time: timestamp,
            username: "PotF".into(),
            msg: MessageContainer {
                text: "&gt;XD".into(),
                team: Team::Named("wg".into()),
            },
            meta: ChatMeta {
                add_class: Some("greentext".into())
            },
        }
    )
}

#[test]
fn chat_message_deserialize_named_team() {
    let timestamp: u64 = 1760608841390;
    let msg =
        ":harmony: :harmony: <span style=\"display:none\" class=\"teamColorSpan\">-teamck-</span>";
    let chat = ChatMessage::decode(&raw_chat(timestamp, "ChatSpammer", msg, None)).unwrap();
    assert_eq!(
        chat,
        ChatMessage {
            time: timestamp,
            username: "ChatSpammer".into(),
            msg: MessageContainer {
                text: ":harmony: :harmony:".into(),
                team: Team::Named("ck".into()),
            },
            meta: ChatMeta { add_class: None },
        }
    )
}

#[test]
fn chat_message_deserialize_null() {
    let timestamp: u64 = 1760631669671;
    let chat =
        ChatMessage::decode(&raw_chat(timestamp, "Yuu", "It's hip to be square.", None)).unwrap();
    assert_eq!(
        chat,
        ChatMessage {
            time: timestamp,
            username: "Yuu".into(),
            msg: MessageContainer {
                text: "It's hip to be square.".into(),
                team: Team::Empty,
            },
            meta: ChatMeta { add_class: None },
        }
    )
}

#[test]
fn chat_message_deserialize_server_whisper() {
    let timestamp: u64 = 1761058613150;
    let msg = String::from(
        "Voteskip passed: 1/2 skipped; eligible voters: 2 = \
        total (2) - AFK (0) - no permission (0); ratio = 0.5",
    );
    let chat =
        ChatMessage::decode(&raw_chat(timestamp, "[voteskip]", &msg, Some("server-whisper")))
            .unwrap();
    assert_eq!(
        chat,
        ChatMessage {
            time: timestamp,
            username: "[voteskip]".into(),
            msg: MessageContainer {
                text: msg,
                team: Team::Empty,
            },
            meta: ChatMeta {
                add_class: Some("server-whisper".into())
            },
        }
    );
    assert!(chat.should_be_skipped());
}

#[test]
fn chat_message_display() {
    let chat = ChatMessage {
        time: 1760634889806,
        username: "Dog".into(),
        msg: MessageContainer {
            text: "5 &gt; 3".into(),
            team: Team::Named("vg".into()),
        },
        meta: ChatMeta { add_class: None },
    };
    assert_eq!(chat.line_format(), "1760634889806\tvg\tDog\t5 &gt; 3");
}

#[test]
fn chat_message_short_format() {
    let chat = ChatMessage {
        time: 1760634889806,
        username: "Dog".into(),
        msg: MessageContainer {
            text: ":carlos:".into(),
            team: Team::Named("m".into()),
        },
        meta: ChatMeta { add_class: None },
    };
    assert_eq!(chat.short_format(), "<Dog> :carlos:");
}

#[test]
fn chat_message_should_be_skipped_server_whisper() {
    let chat = ChatMessage {
        time: 1760634889806,
        username: "[voteskip]".into(),
        msg: MessageContainer {
            text: "Voteskip passed".into(),
            team: Team::Empty,
        },
        meta: ChatMeta {
            add_class: Some("server-whisper".into()),
        },
    };
    assert_eq!(chat.should_be_skipped(), true);
}

#[test]
fn chat_message_should_be_skipped_no_class() {
    let chat = ChatMessage {
        time: 1760634889806,
        username: "Dog".into(),
        msg: MessageContainer {
            text: "5 &gt; 3".into(),
            team: Team::Named("vg".into()),
        },
        meta: ChatMeta { add_class: None },
    };
    assert_eq!(chat.should_be_skipped(), false);
}

#[test]
fn chat_message_should_be_skipped_wrong_class() {
    let chat = ChatMessage {
        time: 1760634889806,
        username: "Dog".into(),
        msg: MessageContainer {
            text: "5 &gt; 3".into(),
            team: Team::Named("vg".into()),
        },
        meta: ChatMeta {
            add_class: Some("greentext".into()),
        },
    };
    assert_eq!(chat.should_be_skipped(), false);
}

#[test]
fn chat_message_decode_missing_fields() {
    let complete = raw_chat(1, "a", "b", None);
    let mut raw = complete.clone();
    raw.time = None;
    assert_eq!(ChatMessage::decode(&raw), Err(DecodeError::MissingTime));
    let mut raw = complete.clone();
    raw.username = None;
    assert_eq!(ChatMessage::decode(&raw), Err(DecodeError::MissingUsername));
    let mut raw = complete.clone();
    raw.msg = None;
    assert_eq!(ChatMessage::decode(&raw), Err(DecodeError::MissingMsg));
    let mut raw = complete.clone();
    raw.meta = None;
    assert_eq!(ChatMessage::decode(&raw), Err(DecodeError::MissingMeta));
}

#[test]
fn chat_message_decode_markup_failure() {
    let raw = raw_chat(1, "a", "<div></div><body></body>", None);
    match ChatMessage::decode(&raw) {
        Err(DecodeError::Markup(_)) => {}
        other => panic!("expected a markup decode failure, got {:?}", other),
    }
}

#[test]
fn message_container_trims_whitespace() {
    let c = MessageContainer::from_markup("   spaced out \t ").unwrap();
    assert_eq!(c.text, "spaced out");
    assert_eq!(c.team, Team::Empty);
}

#[test]
fn message_container_team_span_blank_tag() {
    let c = MessageContainer::from_markup(
        "hi <span class=\"teamColorSpan\">-team-</span>",
    )
    .unwrap();
    assert_eq!(c.text, "hi");
    assert_eq!(c.team, Team::Empty);
}

#[test]
fn login_deserialize_error() {
    let raw = RawLoginPayload {
        success: Some(false),
        name: None,
        error: Some("That username is registered.".into()),
    };
    let login = Login::decode(&raw).unwrap();
    assert_eq!(
        login,
        Login {
            error: Some("That username is registered.".into()),
            name: None,
            success: false,
        }
    )
}

#[test]
fn login_deserialize_success() {
    let raw = RawLoginPayload {
        success: Some(true),
        name: Some("cupcake1".into()),
        error: None,
    };
    let login = Login::decode(&raw).unwrap();
    assert_eq!(
        login,
        Login {
            error: None,
            name: Some("cupcake1".into()),
            success: true,
        }
    )
}

#[test]
fn login_decode_missing_success() {
    let raw = RawLoginPayload {
        success: None,
        name: Some("cupcake1".into()),
        error: None,
    };
    assert_eq!(Login::decode(&raw), Err(DecodeError::MissingSuccess));
}

#[test]
fn login_report_lines() {
    let ok = Login {
        error: None,
        name: Some("cupcake1".into()),
        success: true,
    };
    assert_eq!(ok.report_line(), "Logged in as guest cupcake1");
    let anonymous = Login {
        error: None,
        name: None,
        success: true,
    };
    assert_eq!(anonymous.report_line(), "Logged in as guest Unknown");
    let failed = Login {
        error: Some("That username is registered.".into()),
        name: None,
        success: false,
    };
    assert_eq!(
        failed.report_line(),
        "Login failed: That username is registered."
    );
    let unexplained = Login {
        error: None,
        name: None,
        success: false,
    };
    assert_eq!(unexplained.report_line(), "Login failed: Unknown error");
}

#[test]
fn team_display() {
    assert_eq!(Team::Empty.display_string(), "NULL");
    assert_eq!(Team::Named("vg".into()).display_string(), "vg");
}

#[test]
fn team_named_from_element() {
    assert_eq!(Team::named_from_element("-team-"), None);
    assert_eq!(
        Team::named_from_element("-team1999-"),
        Some(Team::Named("1999".into()))
    );
    assert_eq!(
        Team::named_from_element("-teama-"),
        Some(Team::Named("a".into()))
    );
    assert_eq!(
        Team::named_from_element("-teamhanny-"),
        Some(Team::Named("hanny".into()))
    );
    assert_eq!(Team::named_from_element("-teamv"), None);
    assert_eq!(Team::named_from_element("teamv"), None);
}

#[test]
fn socket_config_first_server() {
    let empty = SocketConfig { servers: vec![] };
    assert_eq!(empty.first_server_url(), None);
    let config = SocketConfig {
        servers: vec![
            SocketConfigServer {
                url: "https://example.com/a".into(),
            },
            SocketConfigServer {
                url: "https://example.com/b".into(),
            },
        ],
    };
    assert_eq!(
        config.first_server_url(),
        Some(String::from("https://example.com/a"))
    );
}

#[test]
fn decimal_formatting_exact() {
    assert_eq!(u64_to_string(0), "0");
    assert_eq!(u64_to_string(9), "9");
    assert_eq!(u64_to_string(10), "10");
    assert_eq!(u64_to_string(1760634889806), "1760634889806");
    assert_eq!(u64_to_string(u64::MAX), "18446744073709551615");
}

#[test]
fn trim_exact() {
    assert_eq!(trim_str(""), "");
    assert_eq!(trim_str("   \t\n  "), "");
    assert_eq!(trim_str("  a b  "), "a b");
    assert_eq!(trim_str("no change"), "no change");
}
