//! Obtaining the PIN of a smartcard, with the scrambled keypad among the ways
//! of entering it.

use crate::config::PinMode;
use crate::error::Error;
use crate::key::{entry_from_reply, entry_of};
use crate::text::{chars_of, digit_char, digit_str};
use rand::seq::SliceRandom;
use vstd::prelude::*;
use vstd::string::*;
use vstd::utf8::valid_utf8;

verus! {

/// The digits of a keypad in their usual order.
pub open spec fn plain_digits() -> Seq<u8> {
    seq![1u8, 2u8, 3u8, 4u8, 5u8, 6u8, 7u8, 8u8, 9u8]
}

/// A keypad shows the digits 1 to 9, each once, on a grid of three rows:
/// `digits[3 * row + column]` is the digit displayed in that place.
pub open spec fn is_keypad(digits: Seq<u8>) -> bool {
    digits.len() == 9 && digits.to_multiset() == plain_digits().to_multiset()
}

/// Every place of a keypad shows a digit from 1 to 9.
pub proof fn lemma_keypad_digits(digits: Seq<u8>)
    requires
        is_keypad(digits),
    ensures
        forall|i: int| 0 <= i < 9 ==> 1 <= #[trigger] digits[i] <= 9,
{
    broadcast use vstd::seq_lib::to_multiset_contains;

    assert forall|i: int| 0 <= i < 9 implies 1 <= #[trigger] digits[i] <= 9 by {
        assert(plain_digits().to_multiset().contains(digits[i]));
    }
}

/// The keys of one layout, from the top left place of the grid to the bottom
/// right one. Layout 0 is the numeric pad, layouts 1 and 2 are the blocks of
/// letter keys under the right and under the left hand.
pub open spec fn layout_keys(layout: int) -> Seq<char> {
    if layout == 0 {
        seq!['7', '8', '9', '4', '5', '6', '1', '2', '3']
    } else if layout == 1 {
        seq!['u', 'i', 'o', 'j', 'k', 'l', 'm', ',', '.']
    } else {
        seq!['w', 'e', 'r', 's', 'd', 'f', 'x', 'c', 'v']
    }
}

/// The place of the grid that the key `c` stands for; `None` for a key of no
/// layout.
pub open spec fn key_position(c: char) -> Option<int> {
    if c == '7' || c == 'u' || c == 'w' {
        Some(0)
    } else if c == '8' || c == 'i' || c == 'e' {
        Some(1)
    } else if c == '9' || c == 'o' || c == 'r' {
        Some(2)
    } else if c == '4' || c == 'j' || c == 's' {
        Some(3)
    } else if c == '5' || c == 'k' || c == 'd' {
        Some(4)
    } else if c == '6' || c == 'l' || c == 'f' {
        Some(5)
    } else if c == '1' || c == 'm' || c == 'x' {
        Some(6)
    } else if c == '2' || c == ',' || c == 'c' {
        Some(7)
    } else if c == '3' || c == '.' || c == 'v' {
        Some(8)
    } else {
        None
    }
}

/// The digits that the keystrokes `keys` select on the keypad `digits`; `None`
/// where a keystroke belongs to no layout.
pub open spec fn translate(digits: Seq<u8>, keys: Seq<char>) -> Option<Seq<char>> {
    if forall|i: int| 0 <= i < keys.len() ==> key_position(#[trigger] keys[i]) is Some {
        Some(
            Seq::new(
                keys.len(),
                |i: int| digit_char(digits[key_position(keys[i]).unwrap()] as int),
            ),
        )
    } else {
        None
    }
}

/// `SliceRandom::shuffle` of the crate `rand`, with the generator of the
/// current thread: it exchanges entries of the list among themselves, so the
/// list holds afterwards what it held before, in an order left to chance.
#[verifier::external_body]
fn shuffle(digits: &mut Vec<u8>)
    ensures
        final(digits)@.to_multiset() == old(digits)@.to_multiset(),
{
    digits.shuffle(&mut rand::thread_rng());
}

/// Draws a keypad at random.
pub fn scrambled_keypad() -> (r: Vec<u8>)
    ensures
        is_keypad(r@),
{
    broadcast use vstd::seq_lib::to_multiset_len;

    let mut digits: Vec<u8> = Vec::new();
    let mut d: u8 = 1;
    while d <= 9
        invariant
            1 <= d <= 10,
            digits@ == plain_digits().take(d - 1),
        decreases 10 - d,
    {
        digits.push(d);
        d += 1;
    }
    assert(digits@ == plain_digits());
    shuffle(&mut digits);
    assert(plain_digits().to_multiset().len() == plain_digits().len());
    digits
}

/// The place of the grid that the key `c` stands for.
pub fn position_of_key(c: char) -> (r: Option<usize>)
    ensures
        r is Some <==> key_position(c) is Some,
        r is Some ==> r->0 == key_position(c)->0,
{
    if c == '7' || c == 'u' || c == 'w' {
        Some(0)
    } else if c == '8' || c == 'i' || c == 'e' {
        Some(1)
    } else if c == '9' || c == 'o' || c == 'r' {
        Some(2)
    } else if c == '4' || c == 'j' || c == 's' {
        Some(3)
    } else if c == '5' || c == 'k' || c == 'd' {
        Some(4)
    } else if c == '6' || c == 'l' || c == 'f' {
        Some(5)
    } else if c == '1' || c == 'm' || c == 'x' {
        Some(6)
    } else if c == '2' || c == ',' || c == 'c' {
        Some(7)
    } else if c == '3' || c == '.' || c == 'v' {
        Some(8)
    } else {
        None
    }
}

/// Reads the PIN off the keypad `digits` from the keystrokes `keys`. One
/// keystroke that belongs to no layout spoils the whole entry.
pub fn read_keystrokes(digits: &Vec<u8>, keys: &str) -> (r: Option<String>)
    requires
        is_keypad(digits@),
    ensures
        r is Some <==> translate(digits@, keys@) is Some,
        r is Some ==> r->0@ == translate(digits@, keys@)->0,
{
    proof {
        lemma_keypad_digits(digits@);
    }
    let chars = chars_of(keys);
    let mut pin = String::new();
    let mut i: usize = 0;
    while i < chars.len()
        invariant
            chars@ == keys@,
            digits@.len() == 9,
            forall|k: int| 0 <= k < 9 ==> 1 <= #[trigger] digits@[k] <= 9,
            i <= chars.len(),
            forall|j: int| 0 <= j < i ==> key_position(#[trigger] chars@[j]) is Some,
            pin@.len() == i,
            forall|j: int|
                0 <= j < i ==> #[trigger] pin@[j] == digit_char(
                    digits@[key_position(chars@[j]).unwrap()] as int,
                ),
        decreases chars.len() - i,
    {
        match position_of_key(chars[i]) {
            None => {
                return None;
            },
            Some(position) => {
                let digit = digits[position] as usize;
                pin.append(digit_str(digit));
            },
        }
        i += 1;
    }
    assert(pin@ =~= translate(digits@, keys@)->0);
    Some(pin)
}

/// Where the PIN dialogue stands.
pub enum PinState {
    /// The PIN is about to be typed as it is.
    Text,
    /// The PIN is about to be entered on the keypad `digits`.
    Numpad { digits: Vec<u8> },
}

/// The content of a `PinState`.
pub enum PinStateView {
    Text,
    Numpad { digits: Seq<u8> },
}

impl View for PinState {
    type V = PinStateView;

    open spec fn view(&self) -> PinStateView {
        match self {
            PinState::Text => PinStateView::Text,
            PinState::Numpad { digits } => PinStateView::Numpad { digits: digits@ },
        }
    }
}

impl PinStateView {
    /// A keypad that is shown is a keypad.
    pub open spec fn wf(self) -> bool {
        match self {
            PinStateView::Text => true,
            PinStateView::Numpad { digits } => is_keypad(digits),
        }
    }
}

/// What the PIN dialogue wants next.
pub enum PinStep {
    /// Show the prompt of `state`, after a warning about the last entry where
    /// `warned` is set, and come back with the reply.
    Ask { state: PinState, warned: bool },
    /// The PIN is settled.
    Done { pin: String },
    /// The PIN came out empty: warn, wait a second, and begin again.
    Empty,
    /// The reply cannot be used.
    Failed { error: Error },
}

/// The content of a `PinStep`.
pub enum PinStepView {
    Ask { state: PinStateView, warned: bool },
    Done { pin: Seq<char> },
    Empty,
    Failed { error: Error },
}

impl View for PinStep {
    type V = PinStepView;

    open spec fn view(&self) -> PinStepView {
        match self {
            PinStep::Ask { state, warned } => PinStepView::Ask { state: state@, warned: *warned },
            PinStep::Done { pin } => PinStepView::Done { pin: pin@ },
            PinStep::Empty => PinStepView::Empty,
            PinStep::Failed { error } => PinStepView::Failed { error: *error },
        }
    }
}

/// How the dialogue begins; `fresh` is the keypad to show if one is needed.
pub open spec fn pin_begin(mode: PinMode, fresh: Seq<u8>) -> PinStepView {
    match mode {
        PinMode::FactoryDefault => PinStepView::Done { pin: "123456"@ },
        PinMode::Text => PinStepView::Ask { state: PinStateView::Text, warned: false },
        PinMode::Numpad => PinStepView::Ask {
            state: PinStateView::Numpad { digits: fresh },
            warned: false,
        },
    }
}

/// The dialogue's rule; `fresh` is the keypad to show if the entry is spoilt.
/// A typed PIN is taken as it was entered. Keystrokes are read off the keypad
/// that was shown; if one belongs to no layout, nothing of the entry is used
/// and the operator is asked again, on the fresh keypad.
pub open spec fn pin_step(state: PinStateView, reply: Seq<u8>, fresh: Seq<u8>) -> PinStepView {
    if !valid_utf8(reply) {
        PinStepView::Failed { error: Error::KeyFile }
    } else {
        let pin = match state {
            PinStateView::Text => Some(entry_of(reply)),
            PinStateView::Numpad { digits } => translate(digits, entry_of(reply)),
        };
        match pin {
            None => PinStepView::Ask {
                state: PinStateView::Numpad { digits: fresh },
                warned: true,
            },
            Some(pin) => if pin.len() == 0 {
                PinStepView::Empty
            } else {
                PinStepView::Done { pin }
            },
        }
    }
}

/// Begins the dialogue, with `fresh` as the keypad to show if one is needed.
pub fn pin_start_with(mode: PinMode, fresh: Vec<u8>) -> (r: PinStep)
    requires
        is_keypad(fresh@),
    ensures
        r@ == pin_begin(mode, fresh@),
{
    match mode {
        PinMode::FactoryDefault => PinStep::Done { pin: String::from_str("123456") },
        PinMode::Text => PinStep::Ask { state: PinState::Text, warned: false },
        PinMode::Numpad => PinStep::Ask { state: PinState::Numpad { digits: fresh }, warned: false },
    }
}

/// Begins the dialogue. A keypad, where one is shown, is drawn at random.
pub fn pin_start(mode: PinMode) -> (r: PinStep)
    ensures
        exists|fresh: Seq<u8>| is_keypad(fresh) && r@ == pin_begin(mode, fresh),
{
    let fresh = scrambled_keypad();
    pin_start_with(mode, fresh)
}

/// Takes the reply to the prompt of `state` and says how the dialogue goes
/// on, with `fresh` as the keypad to show if the entry is spoilt.
pub fn pin_next_with(state: PinState, reply: Vec<u8>, fresh: Vec<u8>) -> (r: PinStep)
    requires
        state@.wf(),
        is_keypad(fresh@),
    ensures
        r@ == pin_step(state@, reply@, fresh@),
{
    match entry_from_reply(reply) {
        Err(error) => PinStep::Failed { error },
        Ok(entry) => {
            let pin = match state {
                PinState::Text => Some(entry),
                PinState::Numpad { digits } => read_keystrokes(&digits, entry.as_str()),
            };
            match pin {
                None => PinStep::Ask { state: PinState::Numpad { digits: fresh }, warned: true },
                Some(pin) => if pin.as_str().unicode_len() == 0 {
                    PinStep::Empty
                } else {
                    PinStep::Done { pin }
                },
            }
        },
    }
}

/// Takes the reply to the prompt of `state` and says how the dialogue goes
/// on. The keypad for a repeated entry is drawn at random.
pub fn pin_next(state: PinState, reply: Vec<u8>) -> (r: PinStep)
    requires
        state@.wf(),
    ensures
        exists|fresh: Seq<u8>| is_keypad(fresh) && r@ == pin_step(state@, reply@, fresh),
{
    let fresh = scrambled_keypad();
    pin_next_with(state, reply, fresh)
}

/// Keystrokes that all lie on the layouts give back what the grid shows in
/// the places they stand for, whichever of the three layouts each keystroke
/// is taken from.
pub proof fn lemma_translate_reads_grid(
    digits: Seq<u8>,
    positions: Seq<int>,
    layouts: Seq<int>,
)
    requires
        positions.len() == layouts.len(),
        forall|i: int| 0 <= i < positions.len() ==> 0 <= #[trigger] positions[i] < 9,
        forall|i: int| 0 <= i < layouts.len() ==> 0 <= #[trigger] layouts[i] < 3,
    ensures
        translate(
            digits,
            Seq::new(positions.len(), |i: int| layout_keys(layouts[i])[positions[i]]),
        ) == Some(Seq::new(positions.len(), |i: int| digit_char(digits[positions[i]] as int))),
{
    let keys = Seq::new(positions.len(), |i: int| layout_keys(layouts[i])[positions[i]]);
    assert forall|i: int| 0 <= i < keys.len() implies key_position(#[trigger] keys[i]) == Some(
        positions[i],
    ) by {
        lemma_layout_key_position(positions[i], layouts[i]);
    }
    assert(translate(digits, keys)->0 =~= Seq::new(
        positions.len(),
        |i: int| digit_char(digits[positions[i]] as int),
    ));
}

/// Each key of each layout stands for the place in which the layout lists it.
pub proof fn lemma_layout_key_position(position: int, layout: int)
    requires
        0 <= position < 9,
        0 <= layout < 3,
    ensures
        key_position(layout_keys(layout)[position]) == Some(position),
{
}

/// One keystroke that belongs to no layout, and the entry gives no PIN: the
/// operator is asked again, on the fresh keypad and with a warning.
pub proof fn lemma_spoilt_entry_gives_no_pin(
    digits: Seq<u8>,
    reply: Seq<u8>,
    fresh: Seq<u8>,
    i: int,
)
    requires
        valid_utf8(reply),
        0 <= i < entry_of(reply).len(),
        key_position(entry_of(reply)[i]) is None,
    ensures
        translate(digits, entry_of(reply)) is None,
        pin_step(PinStateView::Numpad { digits }, reply, fresh) == (PinStepView::Ask {
            state: PinStateView::Numpad { digits: fresh },
            warned: true,
        }),
{
}

/// The first `places` places of the keypad as shown to the operator: a blank
/// and the digit for each place, and a line break behind every third.
pub open spec fn grid_upto(digits: Seq<u8>, places: nat) -> Seq<char>
    decreases places,
{
    if places == 0 {
        Seq::empty()
    } else {
        let k = (places - 1) as nat;
        let cell = grid_upto(digits, k) + seq![' ', digit_char(digits[k as int] as int)];
        if k % 3 == 2 {
            cell + seq!['\n']
        } else {
            cell
        }
    }
}

/// The text shown to the operator in `state`.
pub open spec fn pin_prompt_of(state: PinStateView, warned: bool) -> Seq<char> {
    match state {
        PinStateView::Text => "Enter your PIN"@,
        PinStateView::Numpad { digits } => (if warned {
            "There were invalid digits in the PIN. Please try again.\n"@
        } else {
            Seq::empty()
        }) + "Press numpad buttons matching the locations of your PIN digits\n"@ + grid_upto(
            digits,
            9,
        ),
    }
}

/// The text to show to the operator in `state`.
pub fn pin_prompt(state: &PinState, warned: bool) -> (r: String)
    requires
        state@.wf(),
    ensures
        r@ == pin_prompt_of(state@, warned),
{
    match state {
        PinState::Text => String::from_str("Enter your PIN"),
        PinState::Numpad { digits } => {
            proof {
                lemma_keypad_digits(digits@);
                reveal_strlit(" ");
                reveal_strlit("\n");
            }
            let mut prompt = String::new();
            if warned {
                prompt.append("There were invalid digits in the PIN. Please try again.\n");
            }
            prompt.append("Press numpad buttons matching the locations of your PIN digits\n");
            let ghost head = prompt@;
            let mut k: usize = 0;
            assert(head + grid_upto(digits@, 0) == head);
            while k < 9
                invariant
                    k <= 9,
                    digits@.len() == 9,
                    forall|i: int| 0 <= i < 9 ==> 1 <= #[trigger] digits@[i] <= 9,
                    " "@ == seq![' '],
                    "\n"@ == seq!['\n'],
                    prompt@ == head + grid_upto(digits@, k as nat),
                decreases 9 - k,
            {
                prompt.append(" ");
                prompt.append(digit_str(digits[k] as usize));
                if k % 3 == 2 {
                    prompt.append("\n");
                }
                k += 1;
            }
            assert(prompt@ =~= pin_prompt_of(state@, warned));
            prompt
        },
    }
}

} // verus!
