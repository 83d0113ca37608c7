//! The window manager's side of a desktop task: what an icon is created from, and what
//! the events that Wimp_Poll reports mean.
use vstd::prelude::*;
use crate::helper::char_byte;
use crate::net::{lemma_octets_word, word_octet};

verus! {

/// The window manager version that a task declares itself written for.
pub const WIMP_VERSION: u32 = 528;

/// The reason code of a null event.
pub const REASON_NULL: u32 = 0;

/// The reason code of a mouse click.
pub const REASON_MOUSE_CLICK: u32 = 6;

/// The reason code of a user message that wants an acknowledgement.
pub const REASON_USER_MESSAGE_RECORDED: u32 = 17;

/// The poll mask that Wimp_Poll is called with: no event is masked out.
pub const POLL_MASK: u32 = 0;

/// The priority that Wimp_CreateIcon is called with.
pub const CREATE_ICON_PRIORITY: i32 = 0;

/// The window handle that stands for the icon bar.
pub const ICON_BAR_WINDOW: i32 = -2;

/// A desktop task registered with the window manager, with the block that Wimp_Poll
/// fills in.
pub struct WIMP {
    task_handle: u32,
    poll_buffer: [u32; 64],
}

/// An event that Wimp_Poll reported.
pub enum Event {
    Null,
    MouseClick { x: i32, y: i32, button: u32, icon: Icon },
    UserMessage { sender: u32, my_ref: u32, message: UserMessage },
}

/// The user messages that a task acts on.
pub enum UserMessage {
    Quit,
}

/// Where a new icon goes.
pub enum IconPlacement {
    IconBar(IconBarPosition),
}

/// Which end of the icon bar an icon goes to.
pub enum IconBarPosition {
    Left,
    Right,
}

/// A rectangle in OS units, as the window manager describes icon and window extents.
pub struct Rect {
    pub min_x: i32,
    pub min_y: i32,
    pub max_x: i32,
    pub max_y: i32,
}

/// The flag word of an icon.
pub struct IconFlags(u32);

/// What an icon shows: text or a sprite name, held in the icon block itself.
pub enum IconData<'a> {
    DirectText(&'a str),
    DirectSprite(&'a str),
}

/// An icon: the window it is in and its handle there.
#[derive(PartialEq, Eq, Structural)]
pub struct Icon {
    window: i32,
    icon: i32,
}

impl Rect {
    /// A rectangle with its bottom-left corner at the origin and the given size.
    pub fn with_size(width: i32, height: i32) -> (r: Rect)
        ensures
            r.min_x == 0,
            r.min_y == 0,
            r.max_x == width,
            r.max_y == height,
    {
        Rect { min_x: 0, min_y: 0, max_x: width, max_y: height }
    }
}

impl IconFlags {
    /// The bits of the flag word.
    pub closed spec fn spec_bits(&self) -> u32 {
        self.0
    }

    /// The bits of the flag word.
    pub fn bits(&self) -> (r: u32)
        ensures
            r == self.spec_bits(),
    {
        self.0
    }
}

impl Default for IconFlags {
    /// No flag set.
    fn default() -> (r: IconFlags)
        ensures
            r.spec_bits() == 0,
    {
        IconFlags(0)
    }
}

impl Icon {
    /// The window the icon is in.
    pub closed spec fn spec_window(&self) -> i32 {
        self.window
    }

    /// The icon's handle within its window.
    pub closed spec fn spec_icon(&self) -> i32 {
        self.icon
    }

    /// The window the icon is in.
    pub fn window(&self) -> (r: i32)
        ensures
            r == self.spec_window(),
    {
        self.window
    }

    /// The icon's handle within its window.
    pub fn icon(&self) -> (r: i32)
        ensures
            r == self.spec_icon(),
    {
        self.icon
    }
}

/// The words of the poll block as they are read: each taken as a signed word, two's complement.
pub open spec fn signed(w: u32) -> i32 {
    w as i32
}

impl WIMP {
    /// The task handle that Wimp_Initialise returned.
    pub closed spec fn spec_task_handle(&self) -> u32 {
        self.task_handle
    }

    /// The poll block as the last Wimp_Poll left it.
    pub closed spec fn spec_poll_block(&self) -> Seq<u32> {
        self.poll_buffer@
    }

    /// The task that Wimp_Initialise registered under `task_handle`, with a cleared poll block.
    pub fn from_task_handle(task_handle: u32) -> (r: WIMP)
        ensures
            r.spec_task_handle() == task_handle,
            r.spec_poll_block() == Seq::new(64, |i: int| 0u32),
    {
        let w = WIMP { task_handle, poll_buffer: [0u32; 64] };
        assert(w.poll_buffer@ =~= Seq::new(64, |i: int| 0u32));
        w
    }

    /// The task handle that Wimp_Initialise returned.
    pub fn task_handle(&self) -> (r: u32)
        ensures
            r == self.spec_task_handle(),
    {
        self.task_handle
    }

    /// The poll block, for Wimp_Poll to fill in.
    pub fn poll_block_mut(&mut self) -> (r: &mut [u32; 64])
        ensures
            r@ == old(self).spec_poll_block(),
            final(self).spec_poll_block() == final(r)@,
            final(self).spec_task_handle() == old(self).spec_task_handle(),
    {
        &mut self.poll_buffer
    }

    /// What the poll block means after Wimp_Poll returned `reason_code`: the event to
    /// report, or `None` when the task should poll again.
    pub fn poll_event(&self, reason_code: u32) -> (r: Option<Event>)
        ensures
            reason_code == REASON_NULL ==> r == Some(Event::Null),
            reason_code == REASON_MOUSE_CLICK ==> (r matches Some(
                Event::MouseClick { x, y, button, icon },
            ) && x == signed(self.spec_poll_block()[0]) && y == signed(self.spec_poll_block()[1])
                && button == self.spec_poll_block()[2] && icon.spec_window() == signed(
                self.spec_poll_block()[3],
            ) && icon.spec_icon() == signed(self.spec_poll_block()[4]) && x as u32
                == self.spec_poll_block()[0] && y as u32 == self.spec_poll_block()[1]
                && icon.spec_window() as u32 == self.spec_poll_block()[3] && icon.spec_icon() as u32
                == self.spec_poll_block()[4]),
            reason_code == REASON_USER_MESSAGE_RECORDED && self.spec_poll_block()[4] == 0 ==> (r matches Some(
                Event::UserMessage { sender, my_ref, message },
            ) && sender == self.spec_poll_block()[1] && my_ref == self.spec_poll_block()[2]
                && message == UserMessage::Quit),
            reason_code != REASON_NULL && reason_code != REASON_MOUSE_CLICK && !(reason_code
                == REASON_USER_MESSAGE_RECORDED && self.spec_poll_block()[4] == 0) ==> r is None,
    {
        let block = &self.poll_buffer;
        proof {
            lemma_signed_keeps_bits(block@[0]);
            lemma_signed_keeps_bits(block@[1]);
            lemma_signed_keeps_bits(block@[3]);
            lemma_signed_keeps_bits(block@[4]);
        }
        if reason_code == REASON_NULL {
            Some(Event::Null)
        } else if reason_code == REASON_MOUSE_CLICK {
            let x = block[0] as i32;
            let y = block[1] as i32;
            let button = block[2];
            let window = block[3] as i32;
            let icon = block[4] as i32;
            Some(Event::MouseClick { x, y, button, icon: Icon { window, icon } })
        } else if reason_code == REASON_USER_MESSAGE_RECORDED && block[4] == 0 {
            Some(
                Event::UserMessage {
                    sender: block[1],
                    my_ref: block[2],
                    message: UserMessage::Quit,
                },
            )
        } else {
            None
        }
    }
}

/// The icon block for Wimp_CreateIcon, and the window that the icon will be in.
pub struct IconBlock {
    pub words: [i32; 9],
    pub window: i32,
}

impl IconBlock {
    /// The icon that Wimp_CreateIcon made from this block and returned `handle` for.
    pub fn icon(&self, handle: i32) -> (r: Icon)
        ensures
            r.spec_window() == self.window,
            r.spec_icon() == handle,
    {
        Icon { window: self.window, icon: handle }
    }
}

/// The number of bytes that an icon holds its text or sprite name in.
pub const DIRECT_TEXT_LEN: usize = 12;

/// The text of an icon as it is stored in the block: one byte per character, the low
/// byte of its code point, then zero bytes up to twelve.
pub open spec fn direct_bytes(text: Seq<char>) -> Seq<u8> {
    Seq::new(12, |i: int| if i < text.len() { char_byte(text[i]) } else { 0u8 })
}

/// The unsigned little-endian word made of the four bytes of `bytes` that start at `4 * k`.
pub open spec fn le_unsigned(bytes: Seq<u8>, k: int) -> u32 {
    (bytes[4 * k] + 256 * bytes[4 * k + 1] + 65536 * bytes[4 * k + 2] + 16777216 * bytes[4 * k
        + 3]) as u32
}

/// The little-endian word made of the four bytes of `bytes` that start at `4 * k`.
pub open spec fn le_word(bytes: Seq<u8>, k: int) -> i32 {
    le_unsigned(bytes, k) as i32
}

/// The text of an icon's data.
pub open spec fn data_text(data: IconData) -> Seq<char> {
    match data {
        IconData::DirectText(s) => s@,
        IconData::DirectSprite(s) => s@,
    }
}

/// The flag bit that says what an icon's data is: bit 0 for text, bit 1 for a sprite.
pub open spec fn data_flag(data: IconData) -> u32 {
    match data {
        IconData::DirectText(_) => 1u32,
        IconData::DirectSprite(_) => 2u32,
    }
}

/// The first word of an icon block: the window handle that places the icon, -2 for the
/// left end of the icon bar and -1 for the right end.
pub open spec fn placement_word(placement: IconPlacement) -> i32 {
    match placement {
        IconPlacement::IconBar(IconBarPosition::Left) => -2i32,
        IconPlacement::IconBar(IconBarPosition::Right) => -1i32,
    }
}

/// The nine words of the icon block: placement, bounding box, flags with the data's
/// flag bit set, and the data's text packed into three little-endian words.
pub open spec fn icon_block_words(
    placement: IconPlacement,
    rect: Rect,
    flags: IconFlags,
    data: IconData,
) -> Seq<i32> {
    seq![
        placement_word(placement),
        rect.min_x,
        rect.min_y,
        rect.max_x,
        rect.max_y,
        (flags.spec_bits() | data_flag(data)) as i32,
        le_word(direct_bytes(data_text(data)), 0),
        le_word(direct_bytes(data_text(data)), 1),
        le_word(direct_bytes(data_text(data)), 2),
    ]
}

/// The three words that hold an icon's text: its characters' low bytes, padded with zeros
/// to twelve bytes, four bytes to a word, least significant first.
fn direct_text_words(s: &str) -> (r: [i32; 3])
    requires
        s@.len() <= DIRECT_TEXT_LEN,
    ensures
        forall|k: int| 0 <= k < 3 ==> r@[k] == le_word(direct_bytes(s@), k),
{
    let mut buffer = [0u8; 12];
    let mut i: usize = 0;
    for c in it: s.chars()
        invariant
            it.seq() == s@,
            s@.len() <= DIRECT_TEXT_LEN,
            i == it.index(),
            forall|j: int| 0 <= j < i ==> buffer@[j] == char_byte(s@[j]),
            forall|j: int| i <= j < 12 ==> buffer@[j] == 0u8,
    {
        buffer[i] = (c as u32) as u8;
        i = i + 1;
    }
    assert(buffer@ =~= direct_bytes(s@));
    let mut words = [0i32; 3];
    for k in 0..3
        invariant
            buffer@ == direct_bytes(s@),
            forall|j: int| 0 <= j < k ==> words@[j] == le_word(direct_bytes(s@), j),
    {
        let base = 4 * k;
        let w: u32 = buffer[base] as u32 + (buffer[base + 1] as u32) * 256 + (buffer[base + 2] as u32)
            * 65536 + (buffer[base + 3] as u32) * 16777216;
        words[k] = w as i32;
    }
    words
}

impl WIMP {
    /// The icon block that Wimp_CreateIcon is called with to create an icon from these
    /// parts; the text of `data` is at most twelve characters.
    pub fn create_icon_block(
        &self,
        placement: IconPlacement,
        rect: Rect,
        flags: IconFlags,
        data: IconData,
    ) -> (r: IconBlock)
        requires
            data_text(data).len() <= DIRECT_TEXT_LEN,
        ensures
            r.words@ == icon_block_words(placement, rect, flags, data),
            r.window == ICON_BAR_WINDOW,
            placement matches IconPlacement::IconBar(IconBarPosition::Left) ==> r.words@[0] == -2,
            placement matches IconPlacement::IconBar(IconBarPosition::Right) ==> r.words@[0] == -1,
            r.words@[1] == rect.min_x,
            r.words@[2] == rect.min_y,
            r.words@[3] == rect.max_x,
            r.words@[4] == rect.max_y,
            data is DirectText ==> r.words@[5] as u32 == (flags.spec_bits() | 1u32),
            data is DirectSprite ==> r.words@[5] as u32 == (flags.spec_bits() | 2u32),
            forall|k: int, j: int|
                0 <= k < 3 && 0 <= j < 4 ==> #[trigger] word_octet(
                    r.words@[6 + k] as u32,
                    j,
                ) == (if 4 * k + j < data_text(data).len() {
                    (data_text(data)[4 * k + j] as u32) as u8
                } else {
                    0u8
                }),
    {
        proof {
            lemma_icon_block_contents(placement, rect, flags, data);
        }
        let mut block = [0i32; 9];
        block[1] = rect.min_x;
        block[2] = rect.min_y;
        block[3] = rect.max_x;
        block[4] = rect.max_y;
        let window: i32;
        match placement {
            IconPlacement::IconBar(pos) => match pos {
                IconBarPosition::Left => {
                    block[0] = -2;
                    window = ICON_BAR_WINDOW;
                },
                IconBarPosition::Right => {
                    block[0] = -1;
                    window = ICON_BAR_WINDOW;
                },
            },
        }
        let mut bits = flags.0;
        let text_words = match data {
            IconData::DirectText(s) => {
                bits = bits | 1u32;
                direct_text_words(s)
            },
            IconData::DirectSprite(s) => {
                bits = bits | 2u32;
                direct_text_words(s)
            },
        };
        block[5] = bits as i32;
        block[6] = text_words[0];
        block[7] = text_words[1];
        block[8] = text_words[2];
        assert(block@ =~= icon_block_words(placement, rect, flags, data));
        IconBlock { words: block, window }
    }
}

/// The text of an icon can be read back from its block: byte `j` of text word `k`,
/// counted from the least significant end, is byte `4 * k + j` of the padded text.
pub proof fn lemma_direct_text_recoverable(text: Seq<char>)
    ensures
        forall|k: int, j: int|
            0 <= k < 3 && 0 <= j < 4 ==> word_octet(
                #[trigger] le_word(direct_bytes(text), k) as u32,
                j,
            ) == #[trigger] direct_bytes(text)[4 * k + j],
{
    let b = direct_bytes(text);
    assert forall|k: int, j: int| 0 <= k < 3 && 0 <= j < 4 implies word_octet(
        #[trigger] le_word(b, k) as u32,
        j,
    ) == #[trigger] b[4 * k + j] by {
        lemma_octets_word(b[4 * k] as int, b[4 * k + 1] as int, b[4 * k + 2] as int, b[4 * k + 3] as int);
        let w = le_unsigned(b, k);
        assert((w as i32) as u32 == w) by (bit_vector);
    }
}

/// Reading a poll word as a signed word keeps all its 32 bits: taken back as unsigned,
/// it is the word itself.
pub proof fn lemma_signed_keeps_bits(w: u32)
    ensures
        signed(w) as u32 == w,
        w < 0x8000_0000 ==> signed(w) == w,
        w >= 0x8000_0000 ==> signed(w) == w - 0x1_0000_0000,
{
    assert((w as i32) as u32 == w) by (bit_vector);
    assert(w < 0x8000_0000 ==> (w as i32) == w) by (bit_vector);
    assert(w >= 0x8000_0000 ==> (w as i32) == w - 0x1_0000_0000) by (bit_vector);
}

/// Byte `j` of the little-endian word `k` of `bytes` is byte `4 * k + j` of them.
proof fn lemma_word_bytes(bytes: Seq<u8>, k: int, j: int)
    requires
        bytes.len() == 12,
        0 <= k < 3,
        0 <= j < 4,
    ensures
        word_octet(le_word(bytes, k) as u32, j) == bytes[4 * k + j],
{
    lemma_octets_word(
        bytes[4 * k] as int,
        bytes[4 * k + 1] as int,
        bytes[4 * k + 2] as int,
        bytes[4 * k + 3] as int,
    );
    let w = le_unsigned(bytes, k);
    assert((w as i32) as u32 == w) by (bit_vector);
}

/// What the icon block holds, word by word: the placement, the bounding box, the flags
/// with the data's kind bit set, and in words 6 to 8, byte by byte from the least
/// significant, the low byte of each character of the text or sprite name, then zeros.
pub proof fn lemma_icon_block_contents(
    placement: IconPlacement,
    rect: Rect,
    flags: IconFlags,
    data: IconData,
)
    requires
        data_text(data).len() <= DIRECT_TEXT_LEN,
    ensures
            placement matches IconPlacement::IconBar(IconBarPosition::Left) ==> icon_block_words(placement, rect, flags, data)[0] == -2,
            placement matches IconPlacement::IconBar(IconBarPosition::Right) ==> icon_block_words(placement, rect, flags, data)[0] == -1,
            icon_block_words(placement, rect, flags, data)[1] == rect.min_x,
            icon_block_words(placement, rect, flags, data)[2] == rect.min_y,
            icon_block_words(placement, rect, flags, data)[3] == rect.max_x,
            icon_block_words(placement, rect, flags, data)[4] == rect.max_y,
            data is DirectText ==> icon_block_words(placement, rect, flags, data)[5] as u32 == (flags.spec_bits() | 1u32),
            data is DirectSprite ==> icon_block_words(placement, rect, flags, data)[5] as u32 == (flags.spec_bits() | 2u32),
            forall|k: int, j: int|
                0 <= k < 3 && 0 <= j < 4 ==> #[trigger] word_octet(
                    icon_block_words(placement, rect, flags, data)[6 + k] as u32,
                    j,
                ) == (if 4 * k + j < data_text(data).len() {
                    (data_text(data)[4 * k + j] as u32) as u8
                } else {
                    0u8
                }),
{
    let words = icon_block_words(placement, rect, flags, data);
    let text = data_text(data);
    let bytes = direct_bytes(text);
    let text_flags = flags.spec_bits() | 1u32;
    let sprite_flags = flags.spec_bits() | 2u32;
    assert((text_flags as i32) as u32 == text_flags) by (bit_vector);
    assert((sprite_flags as i32) as u32 == sprite_flags) by (bit_vector);
    assert(words[6] == le_word(bytes, 0));
    assert(words[7] == le_word(bytes, 1));
    assert(words[8] == le_word(bytes, 2));
    assert forall|k: int, j: int| 0 <= k < 3 && 0 <= j < 4 implies #[trigger] word_octet(
        words[6 + k] as u32,
        j,
    ) == (if 4 * k + j < text.len() {
        (text[4 * k + j] as u32) as u8
    } else {
        0u8
    }) by {
        lemma_word_bytes(bytes, k, j);
        assert(words[6 + k] == le_word(bytes, k));
    }
}

} // verus!
