use std::collections::HashMap;
use vstd::prelude::*;

verus! {

/// A finger that strikes keys.
#[derive(Debug, Clone, Copy, PartialEq, Eq, Hash, Structural)]
pub enum Finger {
    LeftPinky,
    LeftRing,
    LeftMiddle,
    LeftIndex,
    RightIndex,
    RightMiddle,
    RightRing,
    RightPinky,
    Thumb,
}

/// A hand.
#[derive(Debug, Clone, Copy, PartialEq, Eq, Structural)]
pub enum Hand {
    Left,
    Right,
}

impl Finger {
    /// The hand of a finger; the thumb counts as of the right hand.
    pub open spec fn hand_of(&self) -> Hand {
        match self {
            Finger::LeftPinky | Finger::LeftRing | Finger::LeftMiddle | Finger::LeftIndex => Hand::Left,
            _ => Hand::Right,
        }
    }

    /// The two-letter name of a finger.
    pub open spec fn short_label(&self) -> Seq<char> {
        match self {
            Finger::LeftPinky => "L4"@,
            Finger::LeftRing => "L3"@,
            Finger::LeftMiddle => "L2"@,
            Finger::LeftIndex => "L1"@,
            Finger::RightIndex => "R1"@,
            Finger::RightMiddle => "R2"@,
            Finger::RightRing => "R3"@,
            Finger::RightPinky => "R4"@,
            Finger::Thumb => "Th"@,
        }
    }

    /// The full name of a finger.
    pub open spec fn long_label(&self) -> Seq<char> {
        match self {
            Finger::LeftPinky => "Left Pinky"@,
            Finger::LeftRing => "Left Ring"@,
            Finger::LeftMiddle => "Left Middle"@,
            Finger::LeftIndex => "Left Index"@,
            Finger::RightIndex => "Right Index"@,
            Finger::RightMiddle => "Right Middle"@,
            Finger::RightRing => "Right Ring"@,
            Finger::RightPinky => "Right Pinky"@,
            Finger::Thumb => "Thumb"@,
        }
    }

    /// The shade of grey of a finger on the finger page, darkest for the
    /// little fingers and lightest for the thumb.
    pub open spec fn gray_of(&self) -> u8 {
        match self {
            Finger::LeftPinky | Finger::RightPinky => 80,
            Finger::LeftRing | Finger::RightRing => 120,
            Finger::LeftMiddle | Finger::RightMiddle => 160,
            Finger::LeftIndex | Finger::RightIndex => 200,
            Finger::Thumb => 220,
        }
    }

    /// The shade of grey of the finger.
    pub fn gray_level(&self) -> (level: u8)
        ensures
            level == self.gray_of(),
    {
        match self {
            Finger::LeftPinky | Finger::RightPinky => 80,
            Finger::LeftRing | Finger::RightRing => 120,
            Finger::LeftMiddle | Finger::RightMiddle => 160,
            Finger::LeftIndex | Finger::RightIndex => 200,
            Finger::Thumb => 220,
        }
    }

    /// The hand of the finger.
    pub fn hand(&self) -> (hand: Hand)
        ensures
            hand == self.hand_of(),
    {
        match self {
            Finger::LeftPinky | Finger::LeftRing | Finger::LeftMiddle | Finger::LeftIndex => {
                Hand::Left
            },
            Finger::RightIndex | Finger::RightMiddle | Finger::RightRing | Finger::RightPinky => {
                Hand::Right
            },
            Finger::Thumb => Hand::Right,
        }
    }

    /// The two-letter name of the finger.
    pub fn short_name(&self) -> (name: &'static str)
        ensures
            name@ == self.short_label(),
    {
        match self {
            Finger::LeftPinky => "L4",
            Finger::LeftRing => "L3",
            Finger::LeftMiddle => "L2",
            Finger::LeftIndex => "L1",
            Finger::RightIndex => "R1",
            Finger::RightMiddle => "R2",
            Finger::RightRing => "R3",
            Finger::RightPinky => "R4",
            Finger::Thumb => "Th",
        }
    }
}

/// The name of a finger as the finger page shows it.
pub fn finger_name(finger: &Finger) -> (name: &'static str)
    ensures
        name@ == finger.long_label(),
{
    match finger {
        Finger::LeftPinky => "Left Pinky",
        Finger::LeftRing => "Left Ring",
        Finger::LeftMiddle => "Left Middle",
        Finger::LeftIndex => "Left Index",
        Finger::RightIndex => "Right Index",
        Finger::RightMiddle => "Right Middle",
        Finger::RightRing => "Right Ring",
        Finger::RightPinky => "Right Pinky",
        Finger::Thumb => "Thumb",
    }
}

/// One key of the layout.
#[derive(Debug, Clone, Copy)]
pub struct KeyInfo {
    pub keycode: u32,
    pub label: &'static str,
    /// Width of the key in cells.
    pub width: u16,
    pub finger: Finger,
}

/// A keyboard layout: its rows of keys, and the finger of each key code.
pub struct QwertyLayout {
    pub rows: Vec<Vec<KeyInfo>>,
    pub finger_map: HashMap<u32, Finger>,
}

/// The rows of the QWERTY layout, from the number row down to the space bar.
pub open spec fn qwerty_rows() -> Seq<Seq<KeyInfo>> {
    seq![
        seq![
            KeyInfo { keycode: 0x32, label: "`", width: 2, finger: Finger::LeftPinky },
            KeyInfo { keycode: 0x12, label: "1", width: 2, finger: Finger::LeftPinky },
            KeyInfo { keycode: 0x13, label: "2", width: 2, finger: Finger::LeftRing },
            KeyInfo { keycode: 0x14, label: "3", width: 2, finger: Finger::LeftMiddle },
            KeyInfo { keycode: 0x15, label: "4", width: 2, finger: Finger::LeftIndex },
            KeyInfo { keycode: 0x17, label: "5", width: 2, finger: Finger::LeftIndex },
            KeyInfo { keycode: 0x16, label: "6", width: 2, finger: Finger::RightIndex },
            KeyInfo { keycode: 0x1A, label: "7", width: 2, finger: Finger::RightIndex },
            KeyInfo { keycode: 0x1C, label: "8", width: 2, finger: Finger::RightMiddle },
            KeyInfo { keycode: 0x19, label: "9", width: 2, finger: Finger::RightRing },
            KeyInfo { keycode: 0x1D, label: "0", width: 2, finger: Finger::RightPinky },
            KeyInfo { keycode: 0x1B, label: "-", width: 2, finger: Finger::RightPinky },
            KeyInfo { keycode: 0x18, label: "=", width: 2, finger: Finger::RightPinky },
            KeyInfo { keycode: 0x33, label: "⌫", width: 3, finger: Finger::RightPinky },
        ],
        seq![
            KeyInfo { keycode: 0x30, label: "⇥", width: 3, finger: Finger::LeftPinky },
            KeyInfo { keycode: 0x0C, label: "Q", width: 2, finger: Finger::LeftPinky },
            KeyInfo { keycode: 0x0D, label: "W", width: 2, finger: Finger::LeftRing },
            KeyInfo { keycode: 0x0E, label: "E", width: 2, finger: Finger::LeftMiddle },
            KeyInfo { keycode: 0x0F, label: "R", width: 2, finger: Finger::LeftIndex },
            KeyInfo { keycode: 0x11, label: "T", width: 2, finger: Finger::LeftIndex },
            KeyInfo { keycode: 0x10, label: "Y", width: 2, finger: Finger::RightIndex },
            KeyInfo { keycode: 0x20, label: "U", width: 2, finger: Finger::RightIndex },
            KeyInfo { keycode: 0x22, label: "I", width: 2, finger: Finger::RightMiddle },
            KeyInfo { keycode: 0x1F, label: "O", width: 2, finger: Finger::RightRing },
            KeyInfo { keycode: 0x23, label: "P", width: 2, finger: Finger::RightPinky },
            KeyInfo { keycode: 0x21, label: "[", width: 2, finger: Finger::RightPinky },
            KeyInfo { keycode: 0x1E, label: "]", width: 2, finger: Finger::RightPinky },
            KeyInfo { keycode: 0x2A, label: "\\", width: 2, finger: Finger::RightPinky },
        ],
        seq![
            KeyInfo { keycode: 0x39, label: "⇪", width: 4, finger: Finger::LeftPinky },
            KeyInfo { keycode: 0x00, label: "A", width: 2, finger: Finger::LeftPinky },
            KeyInfo { keycode: 0x01, label: "S", width: 2, finger: Finger::LeftRing },
            KeyInfo { keycode: 0x02, label: "D", width: 2, finger: Finger::LeftMiddle },
            KeyInfo { keycode: 0x03, label: "F", width: 2, finger: Finger::LeftIndex },
            KeyInfo { keycode: 0x05, label: "G", width: 2, finger: Finger::LeftIndex },
            KeyInfo { keycode: 0x04, label: "H", width: 2, finger: Finger::RightIndex },
            KeyInfo { keycode: 0x26, label: "J", width: 2, finger: Finger::RightIndex },
            KeyInfo { keycode: 0x28, label: "K", width: 2, finger: Finger::RightMiddle },
            KeyInfo { keycode: 0x25, label: "L", width: 2, finger: Finger::RightRing },
            KeyInfo { keycode: 0x29, label: ";", width: 2, finger: Finger::RightPinky },
            KeyInfo { keycode: 0x27, label: "'", width: 2, finger: Finger::RightPinky },
            KeyInfo { keycode: 0x24, label: "⏎", width: 4, finger: Finger::RightPinky },
        ],
        seq![
            KeyInfo { keycode: 0x38, label: "⇧", width: 5, finger: Finger::LeftPinky },
            KeyInfo { keycode: 0x06, label: "Z", width: 2, finger: Finger::LeftPinky },
            KeyInfo { keycode: 0x07, label: "X", width: 2, finger: Finger::LeftRing },
            KeyInfo { keycode: 0x08, label: "C", width: 2, finger: Finger::LeftMiddle },
            KeyInfo { keycode: 0x09, label: "V", width: 2, finger: Finger::LeftIndex },
            KeyInfo { keycode: 0x0B, label: "B", width: 2, finger: Finger::LeftIndex },
            KeyInfo { keycode: 0x2D, label: "N", width: 2, finger: Finger::RightIndex },
            KeyInfo { keycode: 0x2E, label: "M", width: 2, finger: Finger::RightMiddle },
            KeyInfo { keycode: 0x2B, label: ",", width: 2, finger: Finger::RightMiddle },
            KeyInfo { keycode: 0x2F, label: ".", width: 2, finger: Finger::RightRing },
            KeyInfo { keycode: 0x2C, label: "/", width: 2, finger: Finger::RightPinky },
            KeyInfo { keycode: 0x3C, label: "⇧", width: 5, finger: Finger::RightPinky },
        ],
        seq![
            KeyInfo { keycode: 0x31, label: "␣", width: 20, finger: Finger::Thumb },
        ],
    ]
}

/// What each row holds.
pub open spec fn row_views(rows: Seq<Vec<KeyInfo>>) -> Seq<Seq<KeyInfo>> {
    Seq::new(rows.len(), |r: int| rows[r]@)
}

/// The finger of the last key with `keycode` in `keys`, if there is one.
pub open spec fn finger_in(keys: Seq<KeyInfo>, keycode: u32) -> Option<Finger>
    decreases keys.len(),
{
    if keys.len() == 0 {
        None
    } else if keys.last().keycode == keycode {
        Some(keys.last().finger)
    } else {
        finger_in(keys.drop_last(), keycode)
    }
}

/// The sum of the widths of the keys.
pub open spec fn row_width(keys: Seq<KeyInfo>) -> int
    decreases keys.len(),
{
    if keys.len() == 0 {
        0
    } else {
        row_width(keys.drop_last()) + keys.last().width
    }
}

/// The width of the widest row; 0 without rows.
pub open spec fn widest(rows: Seq<Seq<KeyInfo>>) -> int
    decreases rows.len(),
{
    if rows.len() == 0 {
        0
    } else {
        let before = widest(rows.drop_last());
        let width = row_width(rows.last());
        if width > before {
            width
        } else {
            before
        }
    }
}

/// The keys of all rows, one row after the other.
pub open spec fn all_keys(rows: Seq<Seq<KeyInfo>>) -> Seq<KeyInfo>
    decreases rows.len(),
{
    if rows.len() == 0 {
        Seq::empty()
    } else {
        all_keys(rows.drop_last()) + rows.last()
    }
}

/// A row is no wider than its number of keys times the width of its widest
/// key.
pub proof fn lemma_row_width_bounded(keys: Seq<KeyInfo>, limit: int)
    requires
        forall|i: int| 0 <= i < keys.len() ==> (#[trigger] keys[i]).width <= limit,
    ensures
        0 <= row_width(keys) <= keys.len() * limit,
    decreases keys.len(),
{
    if keys.len() > 0 {
        lemma_row_width_bounded(keys.drop_last(), limit);
        assert(keys.last().width <= limit);
        assert(keys.len() * limit == (keys.len() - 1) * limit + limit) by (nonlinear_arith);
    } else {
        assert(keys.len() * limit == 0) by (nonlinear_arith)
            requires
                keys.len() == 0,
        ;
    }
}

/// The first keys of a row are no wider than the row.
pub proof fn lemma_row_width_prefix(keys: Seq<KeyInfo>, n: int)
    requires
        0 <= n <= keys.len(),
    ensures
        0 <= row_width(keys.take(n)) <= row_width(keys),
    decreases keys.len() - n,
{
    if n < keys.len() {
        lemma_row_width_prefix(keys, n + 1);
        assert(keys.take(n + 1).drop_last() =~= keys.take(n));
        lemma_row_width_bounded(keys.take(n), 0xffff);
    } else {
        assert(keys.take(n) =~= keys);
        lemma_row_width_bounded(keys, 0xffff);
    }
}

/// The finger map of `rows`: each key code with the finger of its key.
fn build_finger_map(rows: &Vec<Vec<KeyInfo>>) -> (finger_map: HashMap<u32, Finger>)
    ensures
        forall|keycode: u32|
            (#[trigger] finger_in(all_keys(row_views(rows@)), keycode)) == if finger_map@.contains_key(
                keycode,
            ) {
                Some(finger_map@[keycode])
            } else {
                None
            },
{
    let mut finger_map: HashMap<u32, Finger> = HashMap::new();
    let ghost views = row_views(rows@);
    let mut r: usize = 0;
    assert(views.take(0) =~= Seq::<Seq<KeyInfo>>::empty());
    while r < rows.len()
        invariant
            r <= rows@.len(),
            views == row_views(rows@),
            forall|keycode: u32|
                (#[trigger] finger_in(all_keys(views.take(r as int)), keycode))
                    == if finger_map@.contains_key(keycode) {
                    Some(finger_map@[keycode])
                } else {
                    None
                },
        decreases rows@.len() - r,
    {
        let row = &rows[r];
        let ghost before = all_keys(views.take(r as int));
        let mut c: usize = 0;
        assert(before + row@.take(0) =~= before);
        while c < row.len()
            invariant
                c <= row@.len(),
                forall|keycode: u32|
                    (#[trigger] finger_in(before + row@.take(c as int), keycode))
                        == if finger_map@.contains_key(keycode) {
                        Some(finger_map@[keycode])
                    } else {
                        None
                    },
            decreases row@.len() - c,
        {
            let key = row[c];
            let ghost done = before + row@.take(c as int);
            let ghost grown = before + row@.take(c as int + 1);
            let ghost held = finger_map@;
            finger_map.insert(key.keycode, key.finger);
            proof {
                assert(grown.drop_last() =~= done);
                assert(grown.last() == key);
                assert forall|keycode: u32|
                    (#[trigger] finger_in(grown, keycode)) == if finger_map@.contains_key(
                        keycode,
                    ) {
                        Some(finger_map@[keycode])
                    } else {
                        None
                    } by {
                    if keycode != key.keycode {
                        assert(finger_in(grown, keycode) == finger_in(done, keycode));
                        assert(held.contains_key(keycode) == finger_map@.contains_key(keycode));
                    }
                }
            }
            c += 1;
        }
        proof {
            assert(row@.take(c as int) =~= row@);
            assert(views.take(r as int + 1).drop_last() =~= views.take(r as int));
            assert(views.take(r as int + 1).last() == row@);
        }
        r += 1;
    }
    assert(views.take(r as int) =~= views);
    finger_map
}

impl QwertyLayout {
    /// The keys of all rows, one row after the other.
    pub open spec fn keys(&self) -> Seq<KeyInfo> {
        all_keys(row_views(self.rows@))
    }

    /// The finger map holds, for each key code of the rows, the finger of
    /// its key, and no other key code; and no row is wider than a `u16`
    /// can say.
    pub open spec fn wf(&self) -> bool {
        &&& forall|keycode: u32|
            (#[trigger] finger_in(self.keys(), keycode)) == if self.finger_map@.contains_key(
                keycode,
            ) {
                Some(self.finger_map@[keycode])
            } else {
                None
            }
        &&& forall|r: int|
            0 <= r < self.rows@.len() ==> row_width((#[trigger] self.rows@[r])@) <= u16::MAX
    }

    /// The QWERTY layout.
    pub fn new() -> (layout: Self)
        ensures
            layout.wf(),
            row_views(layout.rows@) == qwerty_rows(),
    {
        let rows = vec![
            vec![
                KeyInfo { keycode: 0x32, label: "`", width: 2, finger: Finger::LeftPinky },
                KeyInfo { keycode: 0x12, label: "1", width: 2, finger: Finger::LeftPinky },
                KeyInfo { keycode: 0x13, label: "2", width: 2, finger: Finger::LeftRing },
                KeyInfo { keycode: 0x14, label: "3", width: 2, finger: Finger::LeftMiddle },
                KeyInfo { keycode: 0x15, label: "4", width: 2, finger: Finger::LeftIndex },
                KeyInfo { keycode: 0x17, label: "5", width: 2, finger: Finger::LeftIndex },
                KeyInfo { keycode: 0x16, label: "6", width: 2, finger: Finger::RightIndex },
                KeyInfo { keycode: 0x1A, label: "7", width: 2, finger: Finger::RightIndex },
                KeyInfo { keycode: 0x1C, label: "8", width: 2, finger: Finger::RightMiddle },
                KeyInfo { keycode: 0x19, label: "9", width: 2, finger: Finger::RightRing },
                KeyInfo { keycode: 0x1D, label: "0", width: 2, finger: Finger::RightPinky },
                KeyInfo { keycode: 0x1B, label: "-", width: 2, finger: Finger::RightPinky },
                KeyInfo { keycode: 0x18, label: "=", width: 2, finger: Finger::RightPinky },
                KeyInfo { keycode: 0x33, label: "⌫", width: 3, finger: Finger::RightPinky },
            ],
            vec![
                KeyInfo { keycode: 0x30, label: "⇥", width: 3, finger: Finger::LeftPinky },
                KeyInfo { keycode: 0x0C, label: "Q", width: 2, finger: Finger::LeftPinky },
                KeyInfo { keycode: 0x0D, label: "W", width: 2, finger: Finger::LeftRing },
                KeyInfo { keycode: 0x0E, label: "E", width: 2, finger: Finger::LeftMiddle },
                KeyInfo { keycode: 0x0F, label: "R", width: 2, finger: Finger::LeftIndex },
                KeyInfo { keycode: 0x11, label: "T", width: 2, finger: Finger::LeftIndex },
                KeyInfo { keycode: 0x10, label: "Y", width: 2, finger: Finger::RightIndex },
                KeyInfo { keycode: 0x20, label: "U", width: 2, finger: Finger::RightIndex },
                KeyInfo { keycode: 0x22, label: "I", width: 2, finger: Finger::RightMiddle },
                KeyInfo { keycode: 0x1F, label: "O", width: 2, finger: Finger::RightRing },
                KeyInfo { keycode: 0x23, label: "P", width: 2, finger: Finger::RightPinky },
                KeyInfo { keycode: 0x21, label: "[", width: 2, finger: Finger::RightPinky },
                KeyInfo { keycode: 0x1E, label: "]", width: 2, finger: Finger::RightPinky },
                KeyInfo { keycode: 0x2A, label: "\\", width: 2, finger: Finger::RightPinky },
            ],
            vec![
                KeyInfo { keycode: 0x39, label: "⇪", width: 4, finger: Finger::LeftPinky },
                KeyInfo { keycode: 0x00, label: "A", width: 2, finger: Finger::LeftPinky },
                KeyInfo { keycode: 0x01, label: "S", width: 2, finger: Finger::LeftRing },
                KeyInfo { keycode: 0x02, label: "D", width: 2, finger: Finger::LeftMiddle },
                KeyInfo { keycode: 0x03, label: "F", width: 2, finger: Finger::LeftIndex },
                KeyInfo { keycode: 0x05, label: "G", width: 2, finger: Finger::LeftIndex },
                KeyInfo { keycode: 0x04, label: "H", width: 2, finger: Finger::RightIndex },
                KeyInfo { keycode: 0x26, label: "J", width: 2, finger: Finger::RightIndex },
                KeyInfo { keycode: 0x28, label: "K", width: 2, finger: Finger::RightMiddle },
                KeyInfo { keycode: 0x25, label: "L", width: 2, finger: Finger::RightRing },
                KeyInfo { keycode: 0x29, label: ";", width: 2, finger: Finger::RightPinky },
                KeyInfo { keycode: 0x27, label: "'", width: 2, finger: Finger::RightPinky },
                KeyInfo { keycode: 0x24, label: "⏎", width: 4, finger: Finger::RightPinky },
            ],
            vec![
                KeyInfo { keycode: 0x38, label: "⇧", width: 5, finger: Finger::LeftPinky },
                KeyInfo { keycode: 0x06, label: "Z", width: 2, finger: Finger::LeftPinky },
                KeyInfo { keycode: 0x07, label: "X", width: 2, finger: Finger::LeftRing },
                KeyInfo { keycode: 0x08, label: "C", width: 2, finger: Finger::LeftMiddle },
                KeyInfo { keycode: 0x09, label: "V", width: 2, finger: Finger::LeftIndex },
                KeyInfo { keycode: 0x0B, label: "B", width: 2, finger: Finger::LeftIndex },
                KeyInfo { keycode: 0x2D, label: "N", width: 2, finger: Finger::RightIndex },
                KeyInfo { keycode: 0x2E, label: "M", width: 2, finger: Finger::RightMiddle },
                KeyInfo { keycode: 0x2B, label: ",", width: 2, finger: Finger::RightMiddle },
                KeyInfo { keycode: 0x2F, label: ".", width: 2, finger: Finger::RightRing },
                KeyInfo { keycode: 0x2C, label: "/", width: 2, finger: Finger::RightPinky },
                KeyInfo { keycode: 0x3C, label: "⇧", width: 5, finger: Finger::RightPinky },
            ],
            vec![
                KeyInfo { keycode: 0x31, label: "␣", width: 20, finger: Finger::Thumb },
            ],
        ];
        proof {
            let views = row_views(rows@);
            let model = qwerty_rows();
            assert(views.len() == model.len());
            assert forall|r: int| 0 <= r < views.len() implies views[r] == model[r] by {
                assert(views[r] =~= model[r]);
            }
            assert(views =~= model);
            assert forall|r: int| 0 <= r < rows@.len() implies row_width(
                (#[trigger] rows@[r])@,
            ) <= u16::MAX by {
                lemma_row_width_bounded(rows@[r]@, 20);
                assert(rows@[r]@.len() * 20 <= 14 * 20) by (nonlinear_arith)
                    requires
                        rows@[r]@.len() <= 14,
                ;
            }
        }
        let finger_map = build_finger_map(&rows);
        QwertyLayout { rows, finger_map }
    }

    /// The finger that the layout assigns to a key code.
    pub fn get_finger(&self, keycode: u32) -> (finger: Option<Finger>)
        requires
            self.wf(),
        ensures
            finger == finger_in(self.keys(), keycode),
    {
        match self.finger_map.get(&keycode) {
            Some(finger) => Some(*finger),
            None => None,
        }
    }

    /// The width of the widest row.
    pub fn total_width(&self) -> (width: u16)
        requires
            self.wf(),
        ensures
            width == widest(row_views(self.rows@)),
    {
        let ghost views = row_views(self.rows@);
        let mut best: u16 = 0;
        let mut r: usize = 0;
        assert(views.take(0) =~= Seq::<Seq<KeyInfo>>::empty());
        while r < self.rows.len()
            invariant
                self.wf(),
                r <= self.rows@.len(),
                views == row_views(self.rows@),
                best == widest(views.take(r as int)),
            decreases self.rows@.len() - r,
        {
            let row = &self.rows[r];
            let mut total: u16 = 0;
            let mut c: usize = 0;
            assert(row@.take(0) =~= Seq::<KeyInfo>::empty());
            while c < row.len()
                invariant
                    c <= row@.len(),
                    row_width(row@) <= u16::MAX,
                    total == row_width(row@.take(c as int)),
                decreases row@.len() - c,
            {
                proof {
                    assert(row@.take(c as int + 1).drop_last() =~= row@.take(c as int));
                    lemma_row_width_prefix(row@, c as int + 1);
                }
                total = total + row[c].width;
                c += 1;
            }
            proof {
                assert(row@.take(c as int) =~= row@);
                assert(views.take(r as int + 1).drop_last() =~= views.take(r as int));
                assert(views.take(r as int + 1).last() == row@);
            }
            if total > best {
                best = total;
            }
            r += 1;
        }
        assert(views.take(r as int) =~= views);
        best
    }
}

impl Default for QwertyLayout {
    fn default() -> (layout: Self)
        ensures
            layout.wf(),
            row_views(layout.rows@) == qwerty_rows(),
    {
        Self::new()
    }
}

} // verus!
