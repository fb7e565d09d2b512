//! Control-surface protocol: decoding raw input frames into typed events,
//! encoding LED updates into output frames, and a model of the surface's
//! indicator lights.

use vstd::prelude::*;

verus! {

/// Indicator colours a surface LED can show.
#[derive(Clone, Copy, PartialEq, Eq, Structural, Debug)]
pub enum LedState {
    Off,
    Green,
    Red,
    Yellow,
    BlinkYellow,
}

impl LedState {
    /// Wire value of this colour in an outgoing frame.
    pub open spec fn spec_code(self) -> u8 {
        match self {
            LedState::Off => 0,
            LedState::Green => 1,
            LedState::Red => 3,
            LedState::Yellow => 5,
            LedState::BlinkYellow => 6,
        }
    }

    /// Wire value of this colour in an outgoing frame.
    pub fn code(self) -> (r: u8)
        ensures
            r == self.spec_code(),
    {
        match self {
            LedState::Off => 0,
            LedState::Green => 1,
            LedState::Red => 3,
            LedState::Yellow => 5,
            LedState::BlinkYellow => 6,
        }
    }
}

/// A decoded input event from the control surface.
#[derive(Clone, Copy, PartialEq, Eq, Structural, Debug)]
pub enum Message {
    /// A grid button has been pressed.
    Button { id: u8 },
    /// A slider value has changed; `id` is already 0-based.
    Slider { id: u8, value: u8 },
    /// A slider button has been pressed; `id` is the raw identifier,
    /// starting at 64.
    SliderButton { id: u8 },
}

/// The event a raw input frame stands for, if any.
///
/// Grid buttons and slider buttons arrive as note-on frames, sliders as
/// control-change frames with the controller number biased by 48; the bias
/// is removed here, and nowhere else.
pub open spec fn spec_from_midi(bytes: Seq<u8>) -> Option<Message> {
    if bytes.len() >= 2 && bytes[0] == 0x90 && bytes[1] < 64 {
        Some(Message::Button { id: bytes[1] })
    } else if bytes.len() >= 2 && bytes[0] == 0x90 && 64 <= bytes[1] && bytes[1] <= 71 {
        Some(Message::SliderButton { id: bytes[1] })
    } else if bytes.len() >= 3 && bytes[0] == 0xB0 && 48 <= bytes[1] && bytes[1] <= 57 {
        Some(Message::Slider { id: (bytes[1] - 48) as u8, value: bytes[2] })
    } else {
        None
    }
}

impl Message {
    /// Decode a raw input frame; frames matching no known pattern are
    /// dropped, not reported as errors.
    pub fn from_midi(message: &[u8]) -> (r: Option<Message>)
        ensures
            r == spec_from_midi(message@),
    {
        if message.len() >= 2 {
            let b0 = message[0];
            let b1 = message[1];
            if b0 == 0x90 && b1 < 64 {
                Some(Message::Button { id: b1 })
            } else if b0 == 0x90 && b1 <= 71 {
                Some(Message::SliderButton { id: b1 })
            } else if b0 == 0xB0 && 48 <= b1 && b1 <= 57 && message.len() >= 3 {
                Some(Message::Slider { id: b1 - 48, value: message[2] })
            } else {
                None
            }
        } else {
            None
        }
    }
}

/// One LED update to be sent to the surface.
#[derive(Clone, Copy, PartialEq, Eq, Structural, Debug)]
pub struct LedCmd {
    pub led: u8,
    pub state: LedState,
}

impl LedCmd {
    /// The three-byte output frame carrying this update.
    pub fn frame(&self) -> (r: [u8; 3])
        ensures
            r@ == seq![0x90u8, self.led, self.state.spec_code()],
    {
        let r = [0x90, self.led, self.state.code()];
        proof {
            assert(r@ =~= seq![0x90u8, self.led, self.state.spec_code()]);
        }
        r
    }
}

/// What the surface shows after a sequence of updates applied to `board`:
/// later commands overwrite earlier ones, LED by LED.
pub open spec fn apply_cmds(board: Map<u8, LedState>, cmds: Seq<LedCmd>) -> Map<u8, LedState>
    decreases cmds.len(),
{
    if cmds.len() == 0 {
        board
    } else {
        apply_cmds(board.insert(cmds[0].led, cmds[0].state), cmds.drop_first())
    }
}

/// Appending one update to a command sequence overwrites exactly its LED.
pub proof fn lemma_apply_cmds_push(board: Map<u8, LedState>, cmds: Seq<LedCmd>, c: LedCmd)
    ensures
        apply_cmds(board, cmds.push(c)) == apply_cmds(board, cmds).insert(c.led, c.state),
    decreases cmds.len(),
{
    if cmds.len() == 0 {
        assert(cmds.push(c)[0] == c);
        assert(cmds.push(c).drop_first() =~= Seq::<LedCmd>::empty());
        assert(apply_cmds(board, cmds.push(c)) == apply_cmds(
            board.insert(c.led, c.state),
            Seq::<LedCmd>::empty(),
        ));
        assert(apply_cmds(board, cmds) == board);
    } else {
        assert(cmds.push(c)[0] == cmds[0]);
        assert(cmds.push(c).drop_first() =~= cmds.drop_first().push(c));
        lemma_apply_cmds_push(board.insert(cmds[0].led, cmds[0].state), cmds.drop_first(), c);
        assert(apply_cmds(board, cmds.push(c)) == apply_cmds(
            board.insert(cmds[0].led, cmds[0].state),
            cmds.drop_first().push(c),
        ));
    }
}

/// Executable mirror of the surface's lights, one entry per LED identifier.
pub struct LedBoard {
    leds: Vec<LedState>,
}

impl LedBoard {
    /// The board holds one entry for each of the 256 possible identifiers.
    pub closed spec fn wf(&self) -> bool {
        self.leds@.len() == 256
    }

    /// Colour currently shown on LED `led`.
    pub closed spec fn spec_led(&self, led: u8) -> LedState {
        self.leds@[led as int]
    }

    /// A board with every light off.
    pub fn new() -> (r: LedBoard)
        ensures
            r.wf(),
            forall|l: u8| r.spec_led(l) == LedState::Off,
    {
        let mut leds: Vec<LedState> = Vec::new();
        let mut i: usize = 0;
        while i < 256
            invariant
                i == leds@.len(),
                i <= 256,
                forall|j: int| 0 <= j < i ==> leds@[j] == LedState::Off,
            decreases 256 - i,
        {
            leds.push(LedState::Off);
            i = i + 1;
        }
        LedBoard { leds }
    }

    /// Colour currently shown on LED `led`.
    pub fn get(&self, led: u8) -> (r: LedState)
        requires
            self.wf(),
        ensures
            r == self.spec_led(led),
    {
        self.leds[led as usize]
    }

    /// Show an update on the board.
    pub fn apply_one(&mut self, c: &LedCmd)
        requires
            old(self).wf(),
        ensures
            final(self).wf(),
            final(self).spec_led(c.led) == c.state,
            forall|l: u8| l != c.led ==> final(self).spec_led(l) == old(self).spec_led(l),
    {
        self.leds[c.led as usize] = c.state;
    }

    /// Show a whole sequence of updates on the board, in order.
    pub fn apply(&mut self, cmds: &Vec<LedCmd>)
        requires
            old(self).wf(),
        ensures
            final(self).wf(),
            forall|l: u8|
                #[trigger] final(self).spec_led(l) == apply_cmds(
                    old(self).spec_board_map(),
                    cmds@,
                )[l],
    {
        let ghost mut m: Map<u8, LedState> = self.spec_board_map();
        let ghost all: Seq<LedCmd> = cmds@;
        let n = cmds.len();
        let mut i: usize = 0;
        while i < n
            invariant
                i <= n,
                n == all.len(),
                cmds@ == all,
                self.wf(),
                m == apply_cmds(old(self).spec_board_map(), all.take(i as int)),
                forall|l: u8| #[trigger] self.spec_led(l) == m[l],
            decreases n - i,
        {
            let c = cmds[i];
            self.apply_one(&c);
            proof {
                lemma_apply_cmds_push(old(self).spec_board_map(), all.take(i as int), c);
                assert(all.take(i as int).push(c) =~= all.take(i as int + 1));
                m = m.insert(c.led, c.state);
            }
            i = i + 1;
        }
        proof {
            assert(all.take(n as int) =~= all);
        }
    }

    /// The board's lights as a total map from identifier to colour.
    pub closed spec fn spec_board_map(&self) -> Map<u8, LedState> {
        Map::new(|l: u8| true, |l: u8| self.leds@[l as int])
    }
}

/// The ASCII bytes every surface port name carries.
pub open spec fn spec_marker() -> Seq<u8> {
    seq![
        'A' as u8,
        'P' as u8,
        'C' as u8,
        ' ' as u8,
        'M' as u8,
        'I' as u8,
        'N' as u8,
        'I' as u8,
    ]
}

/// Whether `name` contains the surface marker as a substring.
pub open spec fn spec_contains_marker(name: Seq<u8>) -> bool {
    exists|k: int|
        0 <= k && k + spec_marker().len() <= name.len() && #[trigger] name.subrange(
            k,
            k + spec_marker().len(),
        ) == spec_marker()
}

/// The ASCII bytes every surface port name carries.
fn marker() -> (r: Vec<u8>)
    ensures
        r@ == spec_marker(),
{
    let mut m: Vec<u8> = Vec::new();
    m.push('A' as u8);
    m.push('P' as u8);
    m.push('C' as u8);
    m.push(' ' as u8);
    m.push('M' as u8);
    m.push('I' as u8);
    m.push('N' as u8);
    m.push('I' as u8);
    proof {
        assert(m@ =~= spec_marker());
    }
    m
}

/// Whether `name` contains the surface marker as a substring.
fn contains_marker(name: &Vec<u8>) -> (r: bool)
    ensures
        r == spec_contains_marker(name@),
{
    let m = marker();
    if name.len() < m.len() {
        return false;
    }
    let mut k: usize = 0;
    while k <= name.len() - m.len()
        invariant
            m@ == spec_marker(),
            m@.len() <= name@.len(),
            k <= name@.len() - m@.len() + 1,
            forall|kk: int|
                0 <= kk < k ==> #[trigger] name@.subrange(kk, kk + spec_marker().len())
                    != spec_marker(),
        decreases name@.len() - k,
    {
        let mut j: usize = 0;
        let mut matched = true;
        while j < m.len()
            invariant
                m@ == spec_marker(),
                k + m@.len() <= name@.len(),
                name@.len() <= usize::MAX,
                j <= m@.len(),
                matched ==> (forall|jj: int| 0 <= jj < j ==> name@[k + jj] == m@[jj]),
                !matched ==> (j == m@.len() && name@.subrange(k as int, k + m@.len())
                    != spec_marker()),
            decreases m@.len() - j,
        {
            if name[k + j] != m[j] {
                proof {
                    assert(name@.subrange(k as int, k + m@.len())[j as int] == name@[k + j]);
                }
                matched = false;
                j = m.len();
            } else {
                j = j + 1;
            }
        }
        if matched {
            proof {
                assert(name@.subrange(k as int, k + spec_marker().len()) =~= spec_marker());
            }
            return true;
        }
        k = k + 1;
    }
    false
}

/// Whether port-name entry `i` is readable and carries the marker.
pub open spec fn spec_entry_matches(names: Seq<Option<Vec<u8>>>, i: int) -> bool {
    names[i] matches Some(v) && spec_contains_marker(v@)
}

/// How many readable port names carry the marker.
pub open spec fn spec_match_count(names: Seq<Option<Vec<u8>>>) -> nat
    decreases names.len(),
{
    if names.len() == 0 {
        0
    } else if spec_entry_matches(names, names.len() - 1) {
        spec_match_count(names.drop_last()) + 1
    } else {
        spec_match_count(names.drop_last())
    }
}

/// How a scan of the available port names ended.
#[derive(Clone, Copy, PartialEq, Eq, Structural, Debug)]
pub enum PortLookup {
    /// No readable port name carries the marker.
    NoMatchingDevice,
    /// Exactly one readable port name carries the marker.
    Match { index: usize },
    /// Several readable names carry the marker; `index` is the first.
    /// Callers use the first match — a deliberate policy, not an error.
    AmbiguousMatch { index: usize, count: usize },
}

/// Scan the port names the system reported, in order; an unreadable name
/// (`None`) is skipped and scanning continues. The result distinguishes
/// "no matching device" from "several matching devices", and in the
/// latter case still names the first match, which callers use.
pub fn find_surface_port(names: &Vec<Option<Vec<u8>>>) -> (r: PortLookup)
    ensures
        match r {
            PortLookup::NoMatchingDevice => {
                &&& spec_match_count(names@) == 0
                &&& forall|j: int| 0 <= j < names@.len() ==> !spec_entry_matches(names@, j)
            },
            PortLookup::Match { index } => {
                &&& spec_match_count(names@) == 1
                &&& index < names@.len()
                &&& spec_entry_matches(names@, index as int)
                &&& forall|j: int| 0 <= j < index ==> !spec_entry_matches(names@, j)
            },
            PortLookup::AmbiguousMatch { index, count } => {
                &&& count == spec_match_count(names@)
                &&& count >= 2
                &&& index < names@.len()
                &&& spec_entry_matches(names@, index as int)
                &&& forall|j: int| 0 <= j < index ==> !spec_entry_matches(names@, j)
            },
        },
{
    let mut count: usize = 0;
    let mut first: Option<usize> = None;
    let mut i: usize = 0;
    proof {
        assert(names@.take(0) =~= Seq::<Option<Vec<u8>>>::empty());
    }
    while i < names.len()
        invariant
            i <= names@.len(),
            count == spec_match_count(names@.take(i as int)),
            count <= i,
            match first {
                Some(f) => {
                    &&& f < i
                    &&& spec_entry_matches(names@, f as int)
                    &&& forall|j: int| 0 <= j < f ==> !spec_entry_matches(names@, j)
                    &&& count >= 1
                },
                None => {
                    &&& forall|j: int| 0 <= j < i ==> !spec_entry_matches(names@, j)
                    &&& count == 0
                },
            },
        decreases names@.len() - i,
    {
        proof {
            assert(names@.take(i as int + 1).drop_last() =~= names@.take(i as int));
            assert(names@.take(i as int + 1).last() == names@[i as int]);
        }
        let hit = match &names[i] {
            Some(name) => contains_marker(name),
            None => false,
        };
        if hit {
            count = count + 1;
            if first.is_none() {
                first = Some(i);
            }
        }
        i = i + 1;
    }
    proof {
        assert(names@.take(names@.len() as int) =~= names@);
    }
    match first {
        None => PortLookup::NoMatchingDevice,
        Some(index) => {
            if count == 1 {
                PortLookup::Match { index }
            } else {
                PortLookup::AmbiguousMatch { index, count }
            }
        },
    }
}

} // verus!
