use riscos::wimp::{
    Event, IconBarPosition, IconData, IconFlags, IconPlacement, Rect, UserMessage, WIMP,
};

#[test]
fn rect_with_size() {
    let r = Rect::with_size(68, 34);
    assert_eq!((r.min_x, r.min_y, r.max_x, r.max_y), (0, 0, 68, 34));
}

#[test]
fn default_flags_are_clear() {
    assert_eq!(IconFlags::default().bits(), 0);
}

#[test]
fn sprite_icon_on_right_of_icon_bar() {
    let wimp = WIMP::from_task_handle(0x1234);
    assert_eq!(wimp.task_handle(), 0x1234);
    let block = wimp.create_icon_block(
        IconPlacement::IconBar(IconBarPosition::Right),
        Rect::with_size(68, 68),
        IconFlags::default(),
        IconData::DirectSprite("application"),
    );
    assert_eq!(block.window, -2);
    assert_eq!(&block.words[..6], &[-1, 0, 0, 68, 68, 2]);
    assert_eq!(block.words[6], i32::from_le_bytes(*b"appl"));
    assert_eq!(block.words[7], i32::from_le_bytes(*b"icat"));
    assert_eq!(block.words[8], i32::from_le_bytes(*b"ion\0"));
    let icon = block.icon(5);
    assert_eq!(icon.window(), -2);
    assert_eq!(icon.icon(), 5);
}

#[test]
fn text_icon_on_left_of_icon_bar() {
    let wimp = WIMP::from_task_handle(1);
    let block = wimp.create_icon_block(
        IconPlacement::IconBar(IconBarPosition::Left),
        Rect { min_x: -4, min_y: 2, max_x: 10, max_y: 20 },
        IconFlags::default(),
        IconData::DirectText("twelve chars"),
    );
    assert_eq!(&block.words[..6], &[-2, -4, 2, 10, 20, 1]);
    assert_eq!(block.words[6], i32::from_le_bytes(*b"twel"));
    assert_eq!(block.words[7], i32::from_le_bytes(*b"ve c"));
    assert_eq!(block.words[8], i32::from_le_bytes(*b"hars"));
}

#[test]
fn empty_text_icon_has_zero_words() {
    let wimp = WIMP::from_task_handle(1);
    let block = wimp.create_icon_block(
        IconPlacement::IconBar(IconBarPosition::Left),
        Rect::with_size(1, 1),
        IconFlags::default(),
        IconData::DirectText(""),
    );
    assert_eq!(&block.words[6..], &[0, 0, 0]);
}

#[test]
fn null_event() {
    let wimp = WIMP::from_task_handle(1);
    assert!(matches!(wimp.poll_event(0), Some(Event::Null)));
}

#[test]
fn mouse_click_event() {
    let mut wimp = WIMP::from_task_handle(1);
    {
        let block = wimp.poll_block_mut();
        block[0] = 100;
        block[1] = (-20i32) as u32;
        block[2] = 4;
        block[3] = (-2i32) as u32;
        block[4] = 7;
    }
    match wimp.poll_event(6) {
        Some(Event::MouseClick { x, y, button, icon }) => {
            assert_eq!((x, y, button), (100, -20, 4));
            assert_eq!((icon.window(), icon.icon()), (-2, 7));
        },
        _ => panic!("expected a mouse click"),
    }
}

#[test]
fn quit_message_event() {
    let mut wimp = WIMP::from_task_handle(1);
    {
        let block = wimp.poll_block_mut();
        block[1] = 99;
        block[2] = 42;
        block[4] = 0;
    }
    match wimp.poll_event(17) {
        Some(Event::UserMessage { sender, my_ref, message: UserMessage::Quit }) => {
            assert_eq!((sender, my_ref), (99, 42));
        },
        _ => panic!("expected a quit message"),
    }
}

#[test]
fn other_messages_and_reasons_are_skipped() {
    let mut wimp = WIMP::from_task_handle(1);
    wimp.poll_block_mut()[4] = 0x502;
    assert!(wimp.poll_event(17).is_none());
    assert!(wimp.poll_event(1).is_none());
    assert!(wimp.poll_event(18).is_none());
}

#[test]
fn icon_text_can_be_read_back() {
    let wimp = WIMP::from_task_handle(1);
    let block = wimp.create_icon_block(
        IconPlacement::IconBar(IconBarPosition::Left),
        Rect::with_size(1, 1),
        IconFlags::default(),
        IconData::DirectText("!Boot"),
    );
    let mut bytes = Vec::new();
    for w in &block.words[6..] {
        bytes.extend_from_slice(&w.to_le_bytes());
    }
    assert_eq!(&bytes, b"!Boot\0\0\0\0\0\0\0");
}
