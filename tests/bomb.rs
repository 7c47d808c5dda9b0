use ktane_utils::bomb::{
    end_bomb, get_bomb, need_bomb, running_in, update_presence, ErrorMessage, Handler,
    OnlineStatus,
};
use std::sync::Arc;

#[test]
fn bombs_are_found_by_channel() {
    let mut handler: Handler<&str> = Handler::new();
    assert!(!running_in(&handler, 10));
    assert!(get_bomb(&handler, 10).is_none());
    assert_eq!(need_bomb(&handler, 10).unwrap_err(), ErrorMessage::NoBomb);
    handler.start(10, Arc::new("first"));
    assert!(running_in(&handler, 10));
    assert!(!running_in(&handler, 11));
    assert_eq!(*get_bomb(&handler, 10).unwrap(), "first");
    assert_eq!(*need_bomb(&handler, 10).unwrap(), "first");
}

#[test]
fn only_the_first_end_counts() {
    let mut handler: Handler<u32> = Handler::new();
    handler.start(3, Arc::new(7));
    handler.start(4, Arc::new(8));
    assert!(end_bomb(&mut handler, 3));
    assert!(!end_bomb(&mut handler, 3));
    assert!(!running_in(&handler, 3));
    assert!(running_in(&handler, 4));
    assert_eq!(handler.bomb_count(), 1);
}

#[test]
fn presence_counts_bombs() {
    let mut handler: Handler<u32> = Handler::new();
    let idle = update_presence(&handler);
    assert_eq!(idle.status, OnlineStatus::Idle);
    assert_eq!(idle.activity, "0 bombs. !help for help");
    handler.start(1, Arc::new(1));
    let one = update_presence(&handler);
    assert_eq!(one.status, OnlineStatus::Online);
    assert_eq!(one.activity, "1 bomb. !help for help");
    for channel in 2..13 {
        handler.start(channel, Arc::new(0));
    }
    let many = update_presence(&handler);
    assert_eq!(many.status, OnlineStatus::Online);
    assert_eq!(many.activity, "12 bombs. !help for help");
}
