use tinybot::qq::converter::c2c_message_create;
use tinybot::qq::types::{C2cAuthor, C2cMessageData};
use tinybot::sdk::{AdapterEvent, MessageMeta};

fn make_c2c(user_openid: &str, content: &str, msg_id: &str) -> C2cMessageData {
    C2cMessageData {
        id: msg_id.into(),
        author: C2cAuthor { user_openid: user_openid.into() },
        content: content.into(),
        timestamp: "2023-11-06T13:37:18+08:00".into(),
    }
}

#[test]
fn converter_c2c_normal_message() {
    let d = make_c2c("USER_OPENID_ABC", "你好", "MSG_ID_001");
    let event = c2c_message_create(&d);
    match event {
        AdapterEvent::Message(msg) => {
            assert_eq!(msg.content.text, "你好");
            match msg.meta {
                MessageMeta::Private(p) => {
                    assert_eq!(p.user_id, "USER_OPENID_ABC");
                }
            }
        }
    }
}

#[test]
fn converter_c2c_empty_content() {
    let d = make_c2c("U1", "", "MSG_002");
    let event = c2c_message_create(&d);
    match event {
        AdapterEvent::Message(msg) => {
            assert_eq!(msg.content.text, "");
            match msg.meta {
                MessageMeta::Private(p) => {
                    assert_eq!(p.user_id, "U1");
                }
            }
        }
    }
}
