//! The two function-key modes, how a mode is persisted, and the command that sets it.

use vstd::prelude::*;
use vstd::string::*;
use crate::text::{is_trim_of, is_white_space, trim, trims_at, white_space_between};

verus! {

/// What the top row of the keyboard sends without the Fn modifier.
#[derive(Clone, Copy, Debug, PartialEq, Eq, Structural)]
pub enum Mode {
    /// F1 to F12.
    StandardFKeys,
    /// Media and shortcut keys, as the keyboard leaves the factory.
    MediaKeys,
}

/// The token persisted for `StandardFKeys`.
pub open spec fn on_token() -> Seq<char> {
    seq!['o', 'n']
}

/// The token persisted for `MediaKeys`.
pub open spec fn off_token() -> Seq<char> {
    seq!['o', 'f', 'f']
}

/// Whether the token for `StandardFKeys` stands in `text` at position `a`
/// with nothing around it but white space.
pub open spec fn reads_on_at(text: Seq<char>, a: int) -> bool {
    &&& 0 <= a && a + 2 <= text.len()
    &&& text[a] == 'o' && text[a + 1] == 'n'
    &&& white_space_between(text, 0, a)
    &&& white_space_between(text, a + 2, text.len() as int)
}

/// Whether stored text reads as the token for `StandardFKeys`: the token, with
/// nothing around it but white space.
pub open spec fn reads_on(text: Seq<char>) -> bool {
    exists|a: int| #[trigger] reads_on_at(text, a)
}

/// The mode that the stored state stands for. `None` is a state that is absent
/// or could not be read.
pub open spec fn stored_mode(contents: Option<Seq<char>>) -> Mode {
    match contents {
        Some(text) if reads_on(text) => Mode::StandardFKeys,
        _ => Mode::MediaKeys,
    }
}

/// The fixed part of both commands: the bytes before the one that names the mode.
pub open spec fn command_prefix() -> Seq<u8> {
    seq![0x10u8, 0xffu8, 0x0bu8, 0x1eu8]
}

impl Mode {
    /// The other mode.
    pub open spec fn spec_toggled(self) -> Mode {
        match self {
            Mode::StandardFKeys => Mode::MediaKeys,
            Mode::MediaKeys => Mode::StandardFKeys,
        }
    }

    /// The token under which this mode is persisted.
    pub open spec fn spec_token(self) -> Seq<char> {
        match self {
            Mode::StandardFKeys => on_token(),
            Mode::MediaKeys => off_token(),
        }
    }

    /// The seven bytes that switch the keyboard to this mode.
    pub open spec fn spec_payload(self) -> Seq<u8> {
        match self {
            Mode::StandardFKeys => seq![0x10u8, 0xffu8, 0x0bu8, 0x1eu8, 0x00u8, 0x00u8, 0x00u8],
            Mode::MediaKeys => seq![0x10u8, 0xffu8, 0x0bu8, 0x1eu8, 0x01u8, 0x00u8, 0x00u8],
        }
    }

    /// The mode a run switches to when this one was persisted last.
    #[verifier::when_used_as_spec(spec_toggled)]
    pub fn toggled(self) -> (other: Mode)
        ensures
            other == self.spec_toggled(),
    {
        match self {
            Mode::StandardFKeys => Mode::MediaKeys,
            Mode::MediaKeys => Mode::StandardFKeys,
        }
    }

    /// The token to persist once a write of this mode was confirmed.
    pub fn token(self) -> (t: &'static str)
        ensures
            t@ == self.spec_token(),
    {
        proof {
            reveal_strlit("on");
            reveal_strlit("off");
        }
        match self {
            Mode::StandardFKeys => {
                let t = "on";
                assert(t@ =~= on_token());
                t
            },
            Mode::MediaKeys => {
                let t = "off";
                assert(t@ =~= off_token());
                t
            },
        }
    }

    /// The command that switches the keyboard to this mode.
    pub fn payload(self) -> (bytes: [u8; 7])
        ensures
            bytes@ == self.spec_payload(),
    {
        let bytes: [u8; 7] = match self {
            Mode::StandardFKeys => [0x10, 0xff, 0x0b, 0x1e, 0x00, 0x00, 0x00],
            Mode::MediaKeys => [0x10, 0xff, 0x0b, 0x1e, 0x01, 0x00, 0x00],
        };
        assert(bytes@ =~= self.spec_payload());
        bytes
    }
}

/// If `t` is `text` trimmed, then `t` is the token for `StandardFKeys` exactly
/// when `text` reads as that token.
pub proof fn lemma_trimmed_reads_on(text: Seq<char>, t: Seq<char>)
    requires
        is_trim_of(text, t),
    ensures
        (t == on_token()) <==> reads_on(text),
{
    let (a, b) = choose|a: int, b: int| #[trigger] trims_at(text, t, a, b);
    assert(!is_white_space('o') && !is_white_space('n'));
    if t == on_token() {
        assert(t.len() == 2);
        assert(t[0] == 'o' && t[1] == 'n');
        assert(reads_on_at(text, a));
    }
    if reads_on(text) {
        let c = choose|c: int| #[trigger] reads_on_at(text, c);
        // White space ends at the `o` and starts again after the `n`, on both counts.
        assert(a <= c && c + 2 <= b);
        assert(a == c && b == c + 2);
        assert(t =~= on_token());
    }
}

/// The mode to take as persisted, given what was read of the state: the text
/// of the state file, or `None` where it is missing or unreadable.
pub fn mode_from_contents(contents: Option<&str>) -> (mode: Mode)
    ensures
        mode == stored_mode(
            match contents {
                Some(text) => Some(text@),
                None => None,
            },
        ),
{
    match contents {
        Some(text) => {
            let t = trim(text);
            proof {
                lemma_trimmed_reads_on(text@, t@);
            }
            if t.unicode_len() == 2 && t.get_char(0) == 'o' && t.get_char(1) == 'n' {
                assert(t@ =~= on_token());
                Mode::StandardFKeys
            } else {
                Mode::MediaKeys
            }
        },
        None => Mode::MediaKeys,
    }
}

/// The token for `StandardFKeys`, stored as it is, reads as that token.
pub proof fn lemma_token_reads_on()
    ensures
        reads_on(on_token()),
        stored_mode(Some(on_token())) == Mode::StandardFKeys,
{
    assert(reads_on_at(on_token(), 0));
}

/// Text without white space at either end is its own trimmed form.
proof fn lemma_trims_to_itself(text: Seq<char>)
    requires
        text.len() > 0 ==> !is_white_space(text[0]) && !is_white_space(text.last()),
    ensures
        is_trim_of(text, text),
{
    let n = text.len() as int;
    assert(text.subrange(0, n) =~= text);
    assert(trims_at(text, text, 0, n));
}

/// Text without white space at either end stands for `StandardFKeys` exactly
/// when it is the token for that mode; an absent state stands for `MediaKeys`.
pub proof fn lemma_stored_token(text: Seq<char>)
    requires
        text.len() > 0 ==> !is_white_space(text[0]) && !is_white_space(text.last()),
    ensures
        stored_mode(Some(text)) == Mode::StandardFKeys <==> text == on_token(),
        stored_mode(None) == Mode::MediaKeys,
{
    assert(reads_on(text) <==> text == on_token()) by {
        lemma_trims_to_itself(text);
        lemma_trimmed_reads_on(text, text);
    }
}

/// Toggling twice gives the mode back, and the token persisted for a mode is
/// read back as that mode. So of two confirmed runs in a row the first
/// persists the other mode and the second the mode that was there before.
pub proof fn lemma_toggle_round_trip(mode: Mode)
    ensures
        mode.spec_toggled() != mode,
        mode.spec_toggled().spec_toggled() == mode,
        stored_mode(Some(mode.spec_token())) == mode,
        stored_mode(Some(mode.spec_toggled().spec_token())) == mode.spec_toggled(),
        stored_mode(Some(mode.spec_toggled().spec_toggled().spec_token())) == mode,
{
    assert(on_token() != off_token()) by {
        assert(on_token().len() != off_token().len());
    }
    lemma_token_reads_on();
    assert(!is_white_space('o') && !is_white_space('f'));
    lemma_stored_token(off_token());
}

/// Both commands are seven bytes long, start with the same four bytes and end
/// in two zero bytes; the byte between is 0 to set `StandardFKeys` and 1 to
/// set `MediaKeys`.
pub proof fn lemma_payload_shape(mode: Mode)
    ensures
        mode.spec_payload().len() == 7,
        mode.spec_payload().subrange(0, 4) == command_prefix(),
        mode.spec_payload()[4] == (if mode == Mode::StandardFKeys { 0u8 } else { 1u8 }),
        mode.spec_payload()[5] == 0,
        mode.spec_payload()[6] == 0,
        mode.spec_payload() != mode.spec_toggled().spec_payload(),
{
    assert(mode.spec_payload().subrange(0, 4) =~= command_prefix());
    assert(mode.spec_payload()[4] != mode.spec_toggled().spec_payload()[4]);
}

} // verus!
